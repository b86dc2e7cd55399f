//! What goes into an HTTP request before it is handed to the transport:
//! the headers as one JSON object, or as a flat list of names and values.

use vstd::prelude::*;
use crate::native_span::SpanString;
use crate::tag_map::{pairs_to_map, TagMap};
use crate::text::texts;

verus! {

/// What `to_string` of serde_json gives for an object whose members are
/// all texts, the members in the order of their names: the JSON text, or
/// the description of its failure.
pub uninterp spec fn json_object(members: Map<Seq<char>, Seq<char>>) -> Result<
    Seq<char>,
    Seq<char>,
>;

/// A text or the description of a failure, as their characters.
pub open spec fn text_result(r: Result<String, String>) -> Result<Seq<char>, Seq<char>> {
    match r {
        Ok(text) => Ok(text@),
        Err(description) => Err(description@),
    }
}

/// The map that a list of headers stands for: where a name comes more than
/// once, its last value stays.
pub open spec fn header_map(headers: Seq<(String, String)>) -> Map<Seq<char>, Seq<char>>
    decreases headers.len(),
{
    if headers.len() == 0 {
        Map::empty()
    } else {
        header_map(headers.drop_last()).insert(headers.last().0@, headers.last().1@)
    }
}

/// The names and values of a list of pairs.
pub open spec fn pairs_view(pairs: Seq<(String, String)>) -> Seq<(Seq<char>, Seq<char>)> {
    Seq::new(pairs.len(), |i: int| (pairs[i].0@, pairs[i].1@))
}

/// Writes a map of texts as a JSON object with `serde_json::to_string`.
/// The pairs go into an ordered map first, so that what comes out, the text
/// or serde_json's description of a failure, depends on the members alone.
#[verifier::external_body]
fn object_to_string(members: &Vec<(String, String)>) -> (r: Result<String, String>)
    requires
        crate::tag_map::distinct_keys(pairs_view(members@)),
    ensures
        text_result(r) == json_object(pairs_to_map(pairs_view(members@))),
{
    let map: std::collections::BTreeMap<&str, &str> =
        members.iter().map(|(k, v)| (k.as_str(), v.as_str())).collect();
    match serde_json::to_string(&map) {
        Ok(text) => Ok(text),
        Err(e) => Err(e.to_string()),
    }
}

/// The headers of a request as one JSON object. Where a name comes more
/// than once, its last value is written. What comes out is what serde_json
/// gives for the object of the headers: its text, or the description of a
/// failure.
pub fn serialize_headers(headers: &[(String, String)]) -> (r: Result<String, String>)
    ensures
        text_result(r) == json_object(header_map(headers@)),
{
    let mut map: TagMap<SpanString> = TagMap::new();
    let mut i: usize = 0;
    proof {
        assert(headers@.take(0) =~= Seq::<(String, String)>::empty());
    }
    while i < headers.len()
        invariant
            i <= headers@.len(),
            map.wf(),
            map@ == header_map(headers@.take(i as int)),
        decreases headers@.len() - i,
    {
        proof {
            assert(headers@.take(i as int + 1).drop_last() =~= headers@.take(i as int));
            assert(headers@.take(i as int + 1).last() == headers@[i as int]);
        }
        map.insert(SpanString(headers[i].0.clone()), SpanString(headers[i].1.clone()));
        i += 1;
    }
    proof {
        assert(headers@.take(headers@.len() as int) =~= headers@);
    }
    let mut members: Vec<(String, String)> = Vec::new();
    let mut k: usize = 0;
    proof {
        map.lemma_view();
    }
    while k < map.len()
        invariant
            k <= map.pairs().len(),
            members@.len() == k,
            forall|j: int|
                0 <= j < k ==> ((#[trigger] members@[j]).0@, members@[j].1@) == map.pairs()[j],
        decreases map.pairs().len() - k,
    {
        let name = map.key_at(k).0.clone();
        let value = map.value_at(k).0.clone();
        members.push((name, value));
        k += 1;
    }
    proof {
        assert(pairs_view(members@) =~= map.pairs());
    }
    object_to_string(&members)
}

/// The texts among the values of a list of headers, each after its name:
/// a header whose value is no text is passed over.
pub open spec fn flat_headers(headers: Seq<(String, Option<String>)>) -> Seq<Seq<char>>
    decreases headers.len(),
{
    if headers.len() == 0 {
        Seq::empty()
    } else {
        match headers.last().1 {
            Some(value) => flat_headers(headers.drop_last()).push(headers.last().0@).push(value@),
            None => flat_headers(headers.drop_last()),
        }
    }
}

/// The headers of a request as Node.js takes them: a flat list of names
/// and values in turn. A header whose value is no text is left out.
pub fn flatten_headers(headers: &[(String, Option<String>)]) -> (r: Vec<String>)
    ensures
        texts(r@) == flat_headers(headers@),
{
    let mut r: Vec<String> = Vec::new();
    let mut i: usize = 0;
    proof {
        assert(headers@.take(0) =~= Seq::<(String, Option<String>)>::empty());
        assert(texts(r@) =~= flat_headers(headers@.take(0)));
    }
    while i < headers.len()
        invariant
            i <= headers@.len(),
            texts(r@) == flat_headers(headers@.take(i as int)),
        decreases headers@.len() - i,
    {
        let ghost before = texts(r@);
        proof {
            assert(headers@.take(i as int + 1).drop_last() =~= headers@.take(i as int));
            assert(headers@.take(i as int + 1).last() == headers@[i as int]);
        }
        match &headers[i].1 {
            Some(value) => {
                r.push(headers[i].0.clone());
                r.push(value.clone());
                assert(texts(r@) =~= before.push(headers@[i as int].0@).push(value@));
            },
            None => {},
        }
        i += 1;
    }
    proof {
        assert(headers@.take(headers@.len() as int) =~= headers@);
    }
    r
}

/// The entries of a list whose name and value are both texts, in their
/// order.
pub open spec fn text_pairs(entries: Seq<(Option<String>, Option<String>)>) -> Seq<
    (Seq<char>, Seq<char>),
>
    decreases entries.len(),
{
    if entries.len() == 0 {
        Seq::empty()
    } else {
        match entries.last() {
            (Some(name), Some(value)) => text_pairs(entries.drop_last()).push((name@, value@)),
            _ => text_pairs(entries.drop_last()),
        }
    }
}

/// The headers of a response as the host hands them over: an entry counts
/// where its name and its value are both texts, and is passed over
/// otherwise.
pub fn text_headers(entries: Vec<(Option<String>, Option<String>)>) -> (r: Vec<(String, String)>)
    ensures
        pairs_view(r@) == text_pairs(entries@),
{
    let mut r: Vec<(String, String)> = Vec::new();
    let mut i: usize = 0;
    proof {
        assert(entries@.take(0) =~= Seq::<(Option<String>, Option<String>)>::empty());
        assert(pairs_view(r@) =~= text_pairs(entries@.take(0)));
    }
    while i < entries.len()
        invariant
            i <= entries@.len(),
            pairs_view(r@) == text_pairs(entries@.take(i as int)),
        decreases entries@.len() - i,
    {
        let ghost before = pairs_view(r@);
        proof {
            assert(entries@.take(i as int + 1).drop_last() =~= entries@.take(i as int));
            assert(entries@.take(i as int + 1).last() == entries@[i as int]);
        }
        match (&entries[i].0, &entries[i].1) {
            (Some(name), Some(value)) => {
                r.push((name.clone(), value.clone()));
                assert(pairs_view(r@) =~= before.push((name@, value@)));
            },
            _ => {},
        }
        i += 1;
    }
    proof {
        assert(entries@.take(entries@.len() as int) =~= entries@);
    }
    r
}

} // verus!
