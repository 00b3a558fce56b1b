//! Encoding an execution result back into a transport response: the body
//! is always serialized; cache-control and custom headers are mirrored
//! only when their syntax is valid, and silently dropped otherwise.

use vstd::prelude::*;

use crate::codec::{check_header_name, check_header_value, header_name_ok, header_value_ok};

verus! {

/// A batch execution result as the encoder sees it: whether it is free
/// of errors, the cache-control directive execution returned, and the
/// custom headers it wants mirrored.
pub struct GraphQLResponse {
    pub ok: bool,
    pub cache_control: Option<String>,
    pub http_headers: Vec<(String, String)>,
}

pub open spec fn pair_models(hs: Seq<(String, String)>) -> Seq<(Seq<char>, Seq<char>)> {
    hs.map_values(|h: (String, String)| (h.0@, h.1@))
}

/// The custom headers that survive the syntax filter, in their original
/// order.
pub open spec fn kept_headers(hs: Seq<(Seq<char>, Seq<char>)>) -> Seq<(Seq<char>, Seq<char>)>
    decreases hs.len(),
{
    if hs.len() == 0 {
        Seq::empty()
    } else {
        kept_headers(hs.drop_last()) + if header_name_ok(hs.last().0) && header_value_ok(
            hs.last().1,
        ) {
            seq![hs.last()]
        } else {
            Seq::empty()
        }
    }
}

/// The cache-control entry a response carries: only an error-free result
/// propagates a syntactically valid directive, and an invalid one is
/// dropped rather than failing the request.
pub open spec fn cache_entry(ok: bool, cc: Option<Seq<char>>) -> Seq<(Seq<char>, Seq<char>)> {
    if ({
        &&& ok
        &&& cc matches Some(v)
        &&& header_value_ok(v)
    }) {
        seq![("cache-control"@, cc->Some_0)]
    } else {
        Seq::empty()
    }
}

impl GraphQLResponse {
    pub open spec fn cache_control_model(&self) -> Option<Seq<char>> {
        match self.cache_control {
            Some(v) => Some(v@),
            None => None,
        }
    }

    /// The header pairs to set on the outbound response, in insertion
    /// order: the cache-control entry first when it applies, then every
    /// custom header whose name and value are well-formed.
    pub fn response_headers(&self) -> (r: Vec<(String, String)>)
        ensures
            pair_models(r@) == cache_entry(self.ok, self.cache_control_model()) + kept_headers(
                pair_models(self.http_headers@),
            ),
    {
        let ghost hm = pair_models(self.http_headers@);
        let mut out: Vec<(String, String)> = Vec::new();
        if self.ok {
            match &self.cache_control {
                Some(v) => {
                    if check_header_value(v.as_str()) {
                        out.push(("cache-control".to_owned(), v.clone()));
                    }
                },
                None => {},
            }
        }
        proof {
            assert(pair_models(out@) =~= cache_entry(self.ok, self.cache_control_model()));
        }
        let mut i: usize = 0;
        while i < self.http_headers.len()
            invariant
                i <= self.http_headers@.len(),
                hm == pair_models(self.http_headers@),
                hm.len() == self.http_headers@.len(),
                pair_models(out@) == cache_entry(self.ok, self.cache_control_model())
                    + kept_headers(hm.take(i as int)),
            decreases self.http_headers@.len() - i,
        {
            proof {
                assert(hm.take(i + 1).drop_last() =~= hm.take(i as int));
                assert(hm.take(i + 1).last() == hm[i as int]);
                assert(hm[i as int] == (self.http_headers@[i as int].0@,
                self.http_headers@[i as int].1@));
            }
            let name_ok = check_header_name(self.http_headers[i].0.as_str());
            let value_ok = check_header_value(self.http_headers[i].1.as_str());
            if name_ok && value_ok {
                let ghost out0 = out@;
                out.push((self.http_headers[i].0.clone(), self.http_headers[i].1.clone()));
                proof {
                    assert(out@ == out0.push((self.http_headers[i as int].0,
                    self.http_headers[i as int].1)));
                    assert(kept_headers(hm.take(i + 1)) == kept_headers(hm.take(i as int))
                        + seq![hm[i as int]]);
                    assert(pair_models(out@) =~= pair_models(out0) + seq![hm[i as int]]);
                    assert(pair_models(out@) =~= cache_entry(self.ok, self.cache_control_model())
                        + kept_headers(hm.take(i + 1)));
                }
            } else {
                proof {
                    assert(kept_headers(hm.take(i + 1)) =~= kept_headers(hm.take(i as int)));
                }
            }
            i += 1;
        }
        proof {
            assert(hm.take(hm.len() as int) =~= hm);
        }
        out
    }
}

} // verus!
