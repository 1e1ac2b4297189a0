use vstd::prelude::*;
use vstd::slice::slice_subrange;
use vstd::slice::slice_to_vec;
use vstd::string::StringSliceAdditionalSpecFns;
use crate::errors::RunError;

verus! {

/// Whether `needle` occurs in `hay` starting at position `i`.
pub open spec fn match_at(hay: Seq<u8>, needle: Seq<u8>, i: int) -> bool {
    &&& 0 <= i
    &&& i + needle.len() <= hay.len()
    &&& hay.subrange(i, i + needle.len()) == needle
}

/// The first occurrence of `needle` in `hay` at or after `i`.
pub open spec fn find_from(hay: Seq<u8>, needle: Seq<u8>, i: int) -> Option<int>
    decreases hay.len() - i + 1 when 0 <= i
{
    if i + needle.len() > hay.len() {
        None
    } else if match_at(hay, needle, i) {
        Some(i)
    } else {
        find_from(hay, needle, i + 1)
    }
}

/// The first occurrence of `needle` in `hay`.
pub open spec fn spec_find(hay: Seq<u8>, needle: Seq<u8>) -> Option<int> {
    find_from(hay, needle, 0)
}

proof fn lemma_find_from_some(hay: Seq<u8>, needle: Seq<u8>, i: int, p: int)
    requires
        0 <= i,
        find_from(hay, needle, i) == Some(p),
    ensures
        i <= p,
        match_at(hay, needle, p),
    decreases hay.len() - i + 1,
{
    if i + needle.len() > hay.len() {
    } else if match_at(hay, needle, i) {
    } else {
        lemma_find_from_some(hay, needle, i + 1, p);
    }
}

/// Finds the first occurrence of `needle` in `hay`.
pub fn find_sub(hay: &[u8], needle: &[u8]) -> (r: Option<usize>)
    ensures
        r matches Some(p) ==> spec_find(hay@, needle@) == Some(p as int),
        r is None ==> spec_find(hay@, needle@) is None,
{
    let mut i: usize = 0;
    while needle.len() <= hay.len() - i
        invariant
            i <= hay.len(),
            find_from(hay@, needle@, 0) == find_from(hay@, needle@, i as int),
        decreases hay.len() - i,
    {
        let mut j: usize = 0;
        let mut matched = true;
        while j < needle.len()
            invariant
                j <= needle.len(),
                i + needle.len() <= hay.len(),
                matched ==> forall|t: int| 0 <= t < j ==> hay@[i + t] == needle@[t],
                !matched ==> !match_at(hay@, needle@, i as int),
            decreases needle.len() - j,
        {
            if *vstd::slice::slice_index_get(hay, i + j) != *vstd::slice::slice_index_get(
                needle,
                j,
            ) {
                proof {
                    assert(!match_at(hay@, needle@, i as int)) by {
                        if match_at(hay@, needle@, i as int) {
                            assert(hay@.subrange(i as int, i + needle@.len())[j as int]
                                == needle@[j as int]);
                        }
                    }
                }
                matched = false;
                j = needle.len();
            } else {
                j = j + 1;
            }
        }
        if matched {
            proof {
                assert(hay@.subrange(i as int, i + needle@.len()) =~= needle@);
            }
            return Some(i);
        }
        proof {
            if needle@.len() == 0 {
                assert(hay@.subrange(i as int, i as int) =~= needle@);
            }
            assert(i + needle@.len() <= hay@.len());
        }
        i = i + 1;
    }
    None
}

/// The fixed marker that precedes the JSON payload embedded in a page.
pub open spec fn marker_bytes() -> Seq<u8> {
    "<script id=\"__NEXT_DATA__\" type=\"application/json\">".spec_bytes()
}

/// The closing tag that ends the payload.
pub open spec fn close_bytes() -> Seq<u8> {
    "</script>".spec_bytes()
}

/// What extraction yields on a page: the bytes strictly between the first
/// marker and the next closing tag after it, or nothing when either is
/// absent.
pub open spec fn payload_of(body: Seq<u8>) -> Option<Seq<u8>> {
    match spec_find(body, marker_bytes()) {
        None => None,
        Some(s) => {
            let rest = body.subrange(s + marker_bytes().len(), body.len() as int);
            match spec_find(rest, close_bytes()) {
                None => None,
                Some(e) => Some(rest.subrange(0, e)),
            }
        },
    }
}

/// Cuts the embedded JSON payload out of an HTML page. A page without the
/// marker, or without a closing tag after it, is rejected outright — never
/// answered with an empty payload.
pub fn extract_embedded_payload(body: &[u8]) -> (r: Result<Vec<u8>, RunError>)
    ensures
        r is Ok <==> payload_of(body@) is Some,
        r matches Ok(v) ==> payload_of(body@) == Some(v@),
        r is Err ==> r == Err::<Vec<u8>, RunError>(RunError::MarkerNotFound),
{
    let marker: &[u8] = "<script id=\"__NEXT_DATA__\" type=\"application/json\">".as_bytes();
    let close: &[u8] = "</script>".as_bytes();
    let s = match find_sub(body, marker) {
        Some(s) => s,
        None => {
            return Err(RunError::MarkerNotFound);
        },
    };
    proof {
        lemma_find_from_some(body@, marker@, 0, s as int);
    }
    let mlen: usize = marker.len();
    proof {
        assert(mlen == marker@.len());
        assert(s + mlen <= body.len());
    }
    let rest = slice_subrange(body, s + mlen, body.len());
    let e = match find_sub(rest, close) {
        Some(e) => e,
        None => {
            return Err(RunError::MarkerNotFound);
        },
    };
    proof {
        lemma_find_from_some(rest@, close@, 0, e as int);
    }
    let payload = slice_subrange(rest, 0, e);
    Ok(slice_to_vec(payload))
}

} // verus!
