use vstd::prelude::*;
use crate::router::{
    Method, Router, Matched, answers, bindings, split_slash, route_matches, slash_free,
    lemma_split_slash_free, lemma_split_append_segment,
};

verus! {

/// The operations of the product catalog that requests are routed to.
#[derive(Clone, Copy, PartialEq, Eq, Structural, Debug)]
pub enum Handler {
    ListProducts,
    GetProductById,
    CreateProduct,
    UpdateProductById,
    DeleteProductById,
}

/// The segments of `/items`.
pub open spec fn items_pattern() -> Seq<Seq<char>> {
    seq![Seq::empty(), "items"@]
}

/// The segments of `/items/:id`.
pub open spec fn item_pattern() -> Seq<Seq<char>> {
    seq![Seq::empty(), "items"@, ":id"@]
}

/// The catalog's routes, in the order they are tried.
pub open spec fn catalog_routes() -> Seq<(Method, Seq<Seq<char>>, Handler)> {
    seq![
        (Method::Get, items_pattern(), Handler::ListProducts),
        (Method::Get, item_pattern(), Handler::GetProductById),
        (Method::Post, items_pattern(), Handler::CreateProduct),
        (Method::Put, item_pattern(), Handler::UpdateProductById),
        (Method::Delete, item_pattern(), Handler::DeleteProductById),
    ]
}

/// Whether catalog route `i` answers method `m` on `path`.
pub open spec fn catalog_answers(i: int, m: Method, path: Seq<char>) -> bool {
    answers(catalog_routes()[i].0, catalog_routes()[i].1, m, path)
}

proof fn lemma_patterns()
    ensures
        split_slash("/items"@) == items_pattern(),
        split_slash("/items/:id"@) == item_pattern(),
{
    reveal_strlit("/items");
    reveal_strlit("/items/:id");
    reveal_strlit("items");
    reveal_strlit(":id");
    let e = Seq::<char>::empty();
    assert(slash_free(e));
    assert(slash_free("items"@));
    assert(slash_free(":id"@));
    lemma_split_slash_free(e);
    lemma_split_append_segment(e, "items"@);
    assert(e + seq!['/'] + "items"@ =~= "/items"@);
    assert(seq![e].push("items"@) =~= items_pattern());
    lemma_split_append_segment("/items"@, ":id"@);
    assert("/items"@ + seq!['/'] + ":id"@ =~= "/items/:id"@);
    assert(items_pattern().push(":id"@) =~= item_pattern());
}

/// No request is answered by two routes of the catalog: whatever matches,
/// matches exactly one route.
pub proof fn lemma_catalog_routes_disjoint(m: Method, path: Seq<char>, i: int, j: int)
    requires
        0 <= i < catalog_routes().len(),
        0 <= j < catalog_routes().len(),
        catalog_answers(i, m, path),
        catalog_answers(j, m, path),
    ensures
        i == j,
{
}

/// The catalog's router: list and fetch on the query side, create, update
/// and delete on the command side.
pub fn cqrs_router() -> (r: Router<Handler>)
    ensures
        r.routes@.len() == catalog_routes().len(),
        forall|i: int| 0 <= i < catalog_routes().len() ==> {
            &&& (#[trigger] r.routes@[i]).method == catalog_routes()[i].0
            &&& crate::router::views(r.routes@[i].pattern@) == catalog_routes()[i].1
            &&& r.routes@[i].handler == catalog_routes()[i].2
        },
{
    proof {
        lemma_patterns();
    }
    let mut router = Router::new();
    router.get("/items", Handler::ListProducts);
    router.get("/items/:id", Handler::GetProductById);
    router.post("/items", Handler::CreateProduct);
    router.put("/items/:id", Handler::UpdateProductById);
    router.delete("/items/:id", Handler::DeleteProductById);
    router
}

/// Routes a request with `method` on `path` through the catalog's routes:
/// the one route that answers it with the parameters it binds, or `None`
/// where none does.
pub fn handle_cqrs(method: Method, path: &str) -> (r: Option<Matched<Handler>>)
    ensures
        r is None <==> forall|i: int|
            0 <= i < catalog_routes().len() ==> !#[trigger] catalog_answers(i, method, path@),
        r matches Some(m) ==> {
            &&& m.route < catalog_routes().len()
            &&& catalog_answers(m.route as int, method, path@)
            &&& forall|i: int|
                0 <= i < catalog_routes().len() && #[trigger] catalog_answers(i, method, path@)
                    ==> i == m.route
            &&& m.handler == catalog_routes()[m.route as int].2
            &&& m.params@ == bindings(catalog_routes()[m.route as int].1, split_slash(path@))
        },
{
    let router = cqrs_router();
    let r = router.find(method, path);
    proof {
        assert forall|i: int|
            #![trigger catalog_answers(i, method, path@)]
            #![trigger router.routes@[i]]
            0 <= i < catalog_routes().len() implies
            catalog_answers(i, method, path@) == route_matches(router.routes@[i], method, path@) by {}
        if r is Some {
            let m = r->0;
            assert forall|i: int|
                0 <= i < catalog_routes().len() && #[trigger] catalog_answers(i, method, path@)
                    implies i == m.route by {
                lemma_catalog_routes_disjoint(method, path@, i, m.route as int);
            }
        }
    }
    r
}

} // verus!
