use vstd::prelude::*;
use vstd::string::StringExecFns;
use crate::location::{build_location_header_value, join};
use crate::response::{HttpResponse, header_views, is_empty_response, is_json_response, json_content_type};
use crate::router::{Params, lookup};

verus! {

/// A call on the query or command side of the catalog, with its arguments:
/// `C` is the payload of a create, `U` that of an update.
pub enum Call<C, U> {
    AllProducts,
    ProductById(String),
    CreateProduct(C),
    UpdateProduct(String, U),
    DeleteProductById(String),
}

/// What a handler does next: answer at once, or make a call and answer with
/// its outcome.
pub enum Step<C, U> {
    Respond(HttpResponse),
    Invoke(Call<C, U>),
}

/// The outcome of deleting a product.
pub enum DeleteOutcome<E> {
    Deleted,
    NotFound,
    Failed(E),
}

/// Whether `s` answers at once with status 400 and nothing else.
pub open spec fn is_bad_request<C, U>(s: Step<C, U>) -> bool {
    s matches Step::Respond(r) && is_empty_response(r, 400)
}

/// The `id` parameter, where bound.
pub open spec fn id_param(params: Params) -> Option<Seq<char>> {
    lookup(params@, "id"@)
}

fn id_of(params: &Params) -> (r: Option<String>)
    ensures
        crate::router::opt_view(r) == id_param(*params),
{
    params.get("id")
}

/// Listing products always asks the query side for all of them.
pub fn query_all_products<C, U>() -> (r: Step<C, U>)
    ensures
        r matches Step::Invoke(Call::AllProducts),
{
    Step::Invoke(Call::AllProducts)
}

/// Fetching one product needs its `id`: without it, 400 and no call;
/// with it, a query by that id.
pub fn query_product_by_id<C, U>(params: &Params) -> (r: Step<C, U>)
    ensures
        id_param(*params) is None ==> is_bad_request(r),
        id_param(*params) matches Some(id) ==> (r matches Step::Invoke(Call::ProductById(s)) && s@ == id),
{
    match id_of(params) {
        None => Step::Respond(HttpResponse::empty(400)),
        Some(id) => Step::Invoke(Call::ProductById(id)),
    }
}

/// Creating a product needs a body that decoded: without it, 400 and no
/// call; with it, a create command carrying the payload.
pub fn create_product<C, U>(decoded: Option<C>) -> (r: Step<C, U>)
    ensures
        decoded is None ==> is_bad_request(r),
        decoded matches Some(p) ==> (r matches Step::Invoke(Call::CreateProduct(q)) && q == p),
{
    match decoded {
        None => Step::Respond(HttpResponse::empty(400)),
        Some(p) => Step::Invoke(Call::CreateProduct(p)),
    }
}

/// Updating a product needs its `id` and a body that decoded: without
/// either, 400 and no call; with both, an update command.
pub fn update_product_by_id<C, U>(params: &Params, decoded: Option<U>) -> (r: Step<C, U>)
    ensures
        id_param(*params) is None ==> is_bad_request(r),
        decoded is None ==> is_bad_request(r),
        id_param(*params) matches Some(id) ==> (decoded matches Some(p) ==> (r matches Step::Invoke(
            Call::UpdateProduct(s, q),
        ) && s@ == id && q == p)),
{
    let id = match id_of(params) {
        None => {
            return Step::Respond(HttpResponse::empty(400));
        },
        Some(id) => id,
    };
    match decoded {
        None => Step::Respond(HttpResponse::empty(400)),
        Some(p) => Step::Invoke(Call::UpdateProduct(id, p)),
    }
}

/// Deleting a product needs its `id`: without it, 400 and no call; with it,
/// a delete command for that id.
pub fn delete_product_by_id<C, U>(params: &Params) -> (r: Step<C, U>)
    ensures
        id_param(*params) is None ==> is_bad_request(r),
        id_param(*params) matches Some(id) ==> (r matches Step::Invoke(Call::DeleteProductById(s)) && s@ == id),
{
    match id_of(params) {
        None => Step::Respond(HttpResponse::empty(400)),
        Some(id) => Step::Invoke(Call::DeleteProductById(id)),
    }
}

/// Answers with a product, or a list of them, encoded as JSON: 200 with the
/// encoding as body. A failure of the call or of the encoding is passed on.
pub fn respond_with_product<E>(outcome: Result<Vec<u8>, E>) -> (r: Result<HttpResponse, E>)
    ensures
        outcome matches Ok(body) ==> (r matches Ok(resp) && is_json_response(resp, 200, body@)
            && header_views(resp.headers@) == seq![json_content_type()]),
        outcome matches Err(e) ==> (r matches Err(f) && f == e),
{
    match outcome {
        Ok(body) => Ok(HttpResponse::json(200, body)),
        Err(e) => Err(e),
    }
}

/// The name of the header that points at a created resource.
pub open spec fn location_header_name() -> Seq<char> {
    "Location"@
}

/// Answers a create at `uri` with the new product's id and JSON encoding:
/// 201, the JSON content type, and `Location` set to `uri` joined with the
/// id. A failure of the call or of the encoding is passed on.
pub fn respond_created<E>(uri: &str, outcome: Result<(String, Vec<u8>), E>) -> (r: Result<HttpResponse, E>)
    ensures
        outcome matches Ok(created) ==> (r matches Ok(resp) && is_json_response(resp, 201, created.1@)
            && header_views(resp.headers@) == seq![
                json_content_type(),
                (location_header_name(), join(uri@, created.0@)),
            ]),
        outcome matches Err(e) ==> (r matches Err(f) && f == e),
{
    match outcome {
        Ok((id, body)) => {
            proof {
                reveal_strlit("Location");
            }
            let location = build_location_header_value(uri, id);
            let resp = HttpResponse::json(201, body).with_header(String::from_str("Location"), location);
            Ok(resp)
        },
        Err(e) => Err(e),
    }
}

impl<E> DeleteOutcome<E> {
    /// Reads the command side's answer: `true` if the product was deleted,
    /// `false` if there was none with that id.
    pub fn from_result(res: Result<bool, E>) -> (r: DeleteOutcome<E>)
        ensures
            res matches Ok(true) ==> r is Deleted,
            res matches Ok(false) ==> r is NotFound,
            res matches Err(e) ==> (r matches DeleteOutcome::Failed(f) && f == e),
    {
        match res {
            Ok(true) => DeleteOutcome::Deleted,
            Ok(false) => DeleteOutcome::NotFound,
            Err(e) => DeleteOutcome::Failed(e),
        }
    }
}

/// Answers a delete: 204 when the product was deleted, 404 when there was
/// none, both with an empty body; a failure is passed on.
pub fn respond_deleted<E>(outcome: DeleteOutcome<E>) -> (r: Result<HttpResponse, E>)
    ensures
        outcome is Deleted ==> (r matches Ok(resp) && is_empty_response(resp, 204)),
        outcome is NotFound ==> (r matches Ok(resp) && is_empty_response(resp, 404)),
        outcome matches DeleteOutcome::Failed(e) ==> (r matches Err(f) && f == e),
{
    match outcome {
        DeleteOutcome::Deleted => Ok(HttpResponse::empty(204)),
        DeleteOutcome::NotFound => Ok(HttpResponse::empty(404)),
        DeleteOutcome::Failed(e) => Err(e),
    }
}

} // verus!
