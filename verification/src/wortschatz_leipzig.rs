//! Example sentences from the Wortschatz Leipzig corpora: the upstream
//! address and query of a sentence search.
use vstd::prelude::*;
use crate::error::{ApiError, BAD_REQUEST};
use crate::text::{trim, trim_spec};

verus! {

/// Name of the service in proxy errors.
pub const SERVICE_NAME: &'static str = "Wortschatz Leipzig";

/// Paging parameters of a sentence search.
pub struct LeipzigQueryParams {
    pub offset: Option<usize>,
    pub limit: Option<usize>,
}

/// The upstream address of a sentence search for `term` in `corpus`, both
/// without surrounding whitespace; `400 Bad Request` for a blank corpus
/// (checked first) or a blank term.
pub fn leipzig_url(corpus: &str, term: &str) -> (res: Result<String, ApiError>)
    ensures
        trim_spec(corpus@).len() == 0 ==> (res matches Err(e) && e.status == BAD_REQUEST
            && e.message@ == "corpus must not be empty"@),
        trim_spec(corpus@).len() > 0 && trim_spec(term@).len() == 0 ==> (res matches Err(e)
            && e.status == BAD_REQUEST && e.message@ == "term must not be empty"@),
        trim_spec(corpus@).len() > 0 && trim_spec(term@).len() > 0 ==> (res matches Ok(url)
            && url@ == "https://api.wortschatz-leipzig.de/ws/sentences/"@ + trim_spec(corpus@)
            + "/sentences/"@ + trim_spec(term@)),
{
    let corpus = trim(corpus);
    let term = trim(term);
    if corpus.is_empty() {
        return Err(ApiError::new(BAD_REQUEST, "corpus must not be empty".to_owned()));
    }
    if term.is_empty() {
        return Err(ApiError::new(BAD_REQUEST, "term must not be empty".to_owned()));
    }
    let mut url = "https://api.wortschatz-leipzig.de/ws/sentences/".to_owned();
    url.append(corpus);
    url.append("/sentences/");
    url.append(term);
    Ok(url)
}

/// The paging pairs of the upstream query, `offset` before `limit`, each
/// present only when given.
pub open spec fn leipzig_query_spec(params: LeipzigQueryParams) -> Seq<(Seq<char>, usize)> {
    (match params.offset {
        Some(o) => seq![("offset"@, o)],
        None => Seq::empty(),
    }) + (match params.limit {
        Some(l) => seq![("limit"@, l)],
        None => Seq::empty(),
    })
}

/// Lists the paging parameters to pass upstream.
pub fn leipzig_query(params: &LeipzigQueryParams) -> (res: Vec<(&'static str, usize)>)
    ensures
        res@.map_values(|p: (&'static str, usize)| (p.0@, p.1)) == leipzig_query_spec(*params),
{
    let mut out: Vec<(&'static str, usize)> = Vec::new();
    if let Some(offset) = params.offset {
        out.push(("offset", offset));
    }
    if let Some(limit) = params.limit {
        out.push(("limit", limit));
    }
    proof {
        assert(out@.map_values(|p: (&'static str, usize)| (p.0@, p.1)) =~= leipzig_query_spec(
            *params,
        ));
    }
    out
}

/// Each paging parameter that is given is passed upstream, whether or not the
/// other one is: a given offset is the first pair, a given limit the last, and
/// there is one pair per given parameter.
pub proof fn law_leipzig_query_passes_each_given_parameter(params: LeipzigQueryParams)
    ensures
        leipzig_query_spec(params).len() == (if params.offset is Some { 1int } else { 0int }) + (
        if params.limit is Some { 1int } else { 0int }),
        params.offset matches Some(o) ==> leipzig_query_spec(params)[0] == ("offset"@, o),
        params.limit matches Some(l) ==> leipzig_query_spec(params).last() == ("limit"@, l),
        params.offset matches Some(o) ==> leipzig_query_spec(params).contains(("offset"@, o)),
        params.limit matches Some(l) ==> leipzig_query_spec(params).contains(("limit"@, l)),
{
    let q = leipzig_query_spec(params);
    if let Some(o) = params.offset {
        assert(q[0] == ("offset"@, o));
    }
    if let Some(l) = params.limit {
        assert(q[q.len() - 1] == ("limit"@, l));
    }
}

} // verus!
