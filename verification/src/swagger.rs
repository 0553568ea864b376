//! Reading the endpoints out of an OpenAPI (Swagger) document.
use vstd::prelude::*;
use crate::types::{
    clone_parameters, clone_strings, endpoint_views, opt_view, ApiEndpoint, EndpointView,
    Operation, PathItem, SwaggerSpec,
};

verus! {

/// The endpoint of operation `op`, with method `method` on path `path`.
pub open spec fn op_endpoint(method: Seq<char>, path: Seq<char>, op: Operation) -> EndpointView {
    EndpointView {
        method,
        path,
        summary: opt_view(op.summary),
        tags: match op.tags {
            Some(t) => t@,
            None => seq![],
        },
        parameters: match op.parameters {
            Some(p) => p@,
            None => seq![],
        },
    }
}

/// The endpoint of an operation that may be missing.
pub open spec fn opt_endpoint(method: Seq<char>, path: Seq<char>, op: Option<Operation>) -> Seq<EndpointView> {
    match op {
        Some(o) => seq![op_endpoint(method, path, o)],
        None => seq![],
    }
}

/// The endpoints of one path: GET, POST, PUT, DELETE and PATCH, in that
/// order, for those operations that are present.
pub open spec fn item_endpoints(path: Seq<char>, item: PathItem) -> Seq<EndpointView> {
    opt_endpoint("GET"@, path, item.get) + opt_endpoint("POST"@, path, item.post) + opt_endpoint(
        "PUT"@,
        path,
        item.put,
    ) + opt_endpoint("DELETE"@, path, item.delete) + opt_endpoint("PATCH"@, path, item.patch)
}

/// The endpoints of all paths, path after path.
pub open spec fn spec_endpoints(paths: Seq<(String, PathItem)>) -> Seq<EndpointView>
    decreases paths.len(),
{
    if paths.len() == 0 {
        seq![]
    } else {
        spec_endpoints(paths.drop_last()) + item_endpoints(paths.last().0@, paths.last().1)
    }
}

fn push_operation(out: &mut Vec<ApiEndpoint>, method: &str, path: &String, op: &Option<Operation>)
    ensures
        endpoint_views(final(out)@) == endpoint_views(old(out)@) + opt_endpoint(method@, path@, *op),
{
    match op {
        Some(o) => {
            let tags = match &o.tags {
                Some(t) => clone_strings(t),
                None => Vec::new(),
            };
            let parameters = match &o.parameters {
                Some(p) => clone_parameters(p),
                None => Vec::new(),
            };
            let e = ApiEndpoint {
                method: method.to_owned(),
                path: path.clone(),
                summary: o.summary.clone(),
                tags,
                parameters,
            };
            assert(e@ == op_endpoint(method@, path@, *o));
            let ghost before = out@;
            out.push(e);
            assert(endpoint_views(out@) =~= endpoint_views(before).push(e@));
        },
        None => {
            assert(endpoint_views(out@) =~= endpoint_views(out@) + Seq::<EndpointView>::empty());
        },
    }
}

/// The endpoints of a document: for each path in order, its GET, POST, PUT,
/// DELETE and PATCH operations that are present, with their summaries, tags
/// and parameters (none when missing).
pub fn parse_swagger_spec(spec: SwaggerSpec) -> (r: Vec<ApiEndpoint>)
    ensures
        endpoint_views(r@) == spec_endpoints(spec.paths@),
{
    let mut endpoints: Vec<ApiEndpoint> = Vec::new();
    let mut i: usize = 0;
    while i < spec.paths.len()
        invariant
            i <= spec.paths@.len(),
            endpoint_views(endpoints@) == spec_endpoints(spec.paths@.take(i as int)),
        decreases spec.paths@.len() - i,
    {
        let path = &spec.paths[i].0;
        let item = &spec.paths[i].1;
        assert(spec.paths@.take(i + 1).drop_last() =~= spec.paths@.take(i as int));
        push_operation(&mut endpoints, "GET", path, &item.get);
        push_operation(&mut endpoints, "POST", path, &item.post);
        push_operation(&mut endpoints, "PUT", path, &item.put);
        push_operation(&mut endpoints, "DELETE", path, &item.delete);
        push_operation(&mut endpoints, "PATCH", path, &item.patch);
        i = i + 1;
    }
    assert(spec.paths@.take(i as int) =~= spec.paths@);
    endpoints
}

/// 1 for an operation that is present, 0 for a missing one.
pub open spec fn present(op: Option<Operation>) -> nat {
    if op is Some {
        1
    } else {
        0
    }
}

/// The number of operations present on all paths.
pub open spec fn operation_count(paths: Seq<(String, PathItem)>) -> nat
    decreases paths.len(),
{
    if paths.len() == 0 {
        0
    } else {
        let it = paths.last().1;
        operation_count(paths.drop_last()) + present(it.get) + present(it.post) + present(it.put)
            + present(it.delete) + present(it.patch)
    }
}

/// Law: a document gives one endpoint per operation present on its paths.
pub proof fn law_one_endpoint_per_operation(paths: Seq<(String, PathItem)>)
    ensures
        spec_endpoints(paths).len() == operation_count(paths),
    decreases paths.len(),
{
    if paths.len() > 0 {
        law_one_endpoint_per_operation(paths.drop_last());
    }
}

} // verus!
