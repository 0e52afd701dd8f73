//! Example sentences from tatoeba.org: the checked search parameters.
use vstd::prelude::*;
use crate::error::{ApiError, BAD_REQUEST};
use crate::text::{str_eq, trim, trim_spec};

verus! {

/// Name of the service in proxy errors.
pub const SERVICE_NAME: &'static str = "Tatoeba";

/// The Tatoeba search endpoint.
pub const TATOEBA_SEARCH_URL: &'static str = "https://tatoeba.org/en/api_v0/search";

/// The `query` parameter of a Tatoeba search, without surrounding
/// whitespace; `400 Bad Request` when it is missing or blank.
pub fn tatoeba_query(query: Option<&str>) -> (res: Result<String, ApiError>)
    ensures
        match query {
            None => res matches Err(e) && e.status == BAD_REQUEST && e.message@
                == "missing required parameter `query`"@,
            Some(q) => if trim_spec(q@).len() == 0 {
                res matches Err(e) && e.status == BAD_REQUEST && e.message@
                    == "query must not be empty"@
            } else {
                res matches Ok(t) && t@ == trim_spec(q@)
            },
        },
{
    match query {
        Some(q) => {
            let trimmed = trim(q);
            if trimmed.is_empty() {
                Err(ApiError::new(BAD_REQUEST, "query must not be empty".to_owned()))
            } else {
                Ok(trimmed.to_owned())
            }
        },
        None => Err(ApiError::new(BAD_REQUEST, "missing required parameter `query`".to_owned())),
    }
}

/// Views of search parameters.
pub open spec fn params_view(params: Seq<(String, String)>) -> Seq<(Seq<char>, Seq<char>)> {
    params.map_values(|p: (String, String)| (p.0@, p.1@))
}

/// The value of the first `query` parameter.
pub open spec fn query_param(params: Seq<(Seq<char>, Seq<char>)>) -> Option<Seq<char>>
    decreases params.len(),
{
    if params.len() == 0 {
        None
    } else if params[0].0 == "query"@ {
        Some(params[0].1)
    } else {
        query_param(params.drop_first())
    }
}

/// The parameters with every `query` value trimmed.
pub open spec fn trimmed_params(params: Seq<(Seq<char>, Seq<char>)>) -> Seq<(Seq<char>, Seq<char>)> {
    params.map_values(
        |p: (Seq<char>, Seq<char>)|
            if p.0 == "query"@ {
                (p.0, trim_spec(p.1))
            } else {
                p
            },
    )
}

/// The search parameters passed on to Tatoeba: the given ones, with the
/// `query` value trimmed; `400 Bad Request`, as for `tatoeba_query`, when
/// `query` is missing or blank.
pub fn tatoeba_params(params: Vec<(String, String)>) -> (res: Result<Vec<(String, String)>, ApiError>)
    ensures
        match query_param(params_view(params@)) {
            None => res matches Err(e) && e.status == BAD_REQUEST && e.message@
                == "missing required parameter `query`"@,
            Some(q) => if trim_spec(q).len() == 0 {
                res matches Err(e) && e.status == BAD_REQUEST && e.message@
                    == "query must not be empty"@
            } else {
                res matches Ok(r) && params_view(r@) == trimmed_params(params_view(params@))
            },
        },
{
    let ghost view = params_view(params@);
    let mut i: usize = 0;
    let mut found: Option<usize> = None;
    proof {
        assert(view.skip(0) =~= view);
    }
    while i < params.len()
        invariant
            i <= params@.len(),
            view == params_view(params@),
            found is None ==> query_param(view) == query_param(view.skip(i as int)),
            found matches Some(k) ==> k < params@.len() && query_param(view) == Some(
                params@[k as int].1@,
            ),
        decreases params@.len() - i,
    {
        if found.is_none() {
            proof {
                assert(view.skip(i as int)[0] == view[i as int]);
                assert(view.skip(i as int).drop_first() =~= view.skip(i + 1));
            }
            if str_eq(params[i].0.as_str(), "query") {
                found = Some(i);
            }
        }
        i += 1;
    }
    proof {
        if found is None {
            assert(view.skip(i as int).len() == 0);
        }
    }
    let checked = match found {
        Some(k) => tatoeba_query(Some(params[k].1.as_str())),
        None => tatoeba_query(None),
    };
    if let Err(e) = checked {
        return Err(e);
    }
    let ghost all = params@;
    let mut rest = params;
    let mut out: Vec<(String, String)> = Vec::new();
    let ghost mut j: int = 0;
    proof {
        assert(all.skip(0) =~= all);
    }
    while rest.len() > 0
        invariant
            0 <= j <= all.len(),
            rest@ == all.skip(j),
            view == params_view(all),
            params_view(out@) == trimmed_params(view).take(j),
        decreases rest@.len(),
    {
        let (key, value) = rest.remove(0);
        proof {
            assert(all[j] == (key, value));
            assert(all.skip(j).remove(0) =~= all.skip(j + 1));
        }
        let is_query = str_eq(key.as_str(), "query");
        let v = if is_query {
            trim(value.as_str()).to_owned()
        } else {
            value
        };
        let ghost before = out@;
        out.push((key, v));
        proof {
            assert(params_view(out@) =~= params_view(before).push((key@, v@)));
            assert(params_view(out@) =~= trimmed_params(view).take(j + 1));
            j = j + 1;
        }
    }
    proof {
        assert(trimmed_params(view).take(j) =~= trimmed_params(view));
    }
    Ok(out)
}

} // verus!
