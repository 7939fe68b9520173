//! The cache key of a header-based lookup. The key is built from the values
//! of the headers that the server declared important, taken in the order in
//! which the server listed them, so that it depends neither on the order in
//! which a request carries its headers, nor on the casing of their names, nor
//! on headers that are not important.

use crate::digest::{digest_of, digest_text};
use vstd::prelude::*;
use vstd::string::*;

verus! {

/// Request headers by content: name and value, in the order given.
pub type Headers = Seq<(Seq<char>, Seq<char>)>;

/// The lower-case form of `text`, as `str::to_lowercase` computes it.
pub uninterp spec fn lowercase_of(text: Seq<char>) -> Seq<char>;

/// `str::to_lowercase`: the lower-case form of `text`.
#[verifier::external_body]
pub(crate) fn lowercase(text: &String) -> (lower: String)
    ensures
        lower@ == lowercase_of(text@),
{
    text.to_lowercase()
}

/// Two header names are the same name when they differ in casing only.
pub open spec fn same_name(a: Seq<char>, b: Seq<char>) -> bool {
    lowercase_of(a) == lowercase_of(b)
}

/// The value that `headers` gives to the header `name`: that of the last
/// header so named, whatever its casing.
pub open spec fn header_value(headers: Headers, name: Seq<char>) -> Option<Seq<char>>
    decreases headers.len(),
{
    if headers.len() == 0 {
        None
    } else if same_name(headers.last().0, name) {
        Some(headers.last().1)
    } else {
        header_value(headers.drop_last(), name)
    }
}

/// What the important header `name` adds to the key: its value, or nothing
/// when the request does not carry it or the name is empty.
pub open spec fn contribution(headers: Headers, name: Seq<char>) -> Seq<char> {
    match header_value(headers, name) {
        Some(value) => if name.len() == 0 {
            Seq::empty()
        } else {
            value
        },
        None => Seq::empty(),
    }
}

/// The text that is digested: the contributions of the important headers,
/// in the order of `important`, with nothing between them.
pub open spec fn key_text(important: Seq<Seq<char>>, headers: Headers) -> Seq<char>
    decreases important.len(),
{
    if important.len() == 0 {
        Seq::empty()
    } else {
        key_text(important.drop_last(), headers) + contribution(headers, important.last())
    }
}

/// The cache key of a request that carries `headers`.
pub open spec fn cache_key_of(important: Seq<Seq<char>>, headers: Headers) -> Seq<char> {
    digest_of(key_text(important, headers))
}

/// The headers that are sent to the server: for each important header that
/// the request carries with a value that is not empty, in the order of
/// `important`, the name as the server spells it and the value.
pub open spec fn important_values(important: Seq<Seq<char>>, headers: Headers) -> Headers
    decreases important.len(),
{
    if important.len() == 0 {
        Seq::empty()
    } else {
        let rest = important_values(important.drop_last(), headers);
        match header_value(headers, important.last()) {
            Some(value) => if value.len() == 0 {
                rest
            } else {
                rest.push((important.last(), value))
            },
            None => rest,
        }
    }
}

/// No two headers carry the same name, whatever the casing.
pub open spec fn names_unique(headers: Headers) -> bool {
    forall|i: int, j: int|
        0 <= i < j < headers.len() ==> !same_name(
            (#[trigger] headers[i]).0,
            (#[trigger] headers[j]).0,
        )
}

/// `name` is one of the important headers, whatever the casing.
pub open spec fn is_important(important: Seq<Seq<char>>, name: Seq<char>) -> bool {
    exists|k: int| 0 <= k < important.len() && same_name(#[trigger] important[k], name)
}

/// The lower-case forms of the names of `headers`, in order.
pub fn lower_names(headers: &Vec<(String, String)>) -> (lowered: Vec<String>)
    ensures
        lowered.len() == headers.len(),
        forall|i: int|
            0 <= i < headers.len() ==> (#[trigger] lowered[i])@ == lowercase_of(headers[i].0@),
{
    let mut lowered: Vec<String> = Vec::new();
    let mut i: usize = 0;
    while i < headers.len()
        invariant
            0 <= i <= headers.len(),
            lowered.len() == i,
            forall|j: int| 0 <= j < i ==> (#[trigger] lowered[j])@ == lowercase_of(headers[j].0@),
        decreases headers.len() - i,
    {
        lowered.push(lowercase(&headers[i].0));
        i = i + 1;
    }
    lowered
}

/// Where `wanted` stands last in `names`, if it stands there at all.
pub open spec fn last_position(names: Seq<Seq<char>>, wanted: Seq<char>) -> Option<int>
    decreases names.len(),
{
    if names.len() == 0 {
        None
    } else if names.last() == wanted {
        Some(names.len() - 1)
    } else {
        last_position(names.drop_last(), wanted)
    }
}

/// The lower-case forms of the names of `headers`, in order.
pub open spec fn lowered_names(headers: Headers) -> Seq<Seq<char>> {
    Seq::new(headers.len(), |i: int| lowercase_of(headers[i].0))
}

/// A header's value is found by way of the lower-case forms of the names.
pub proof fn lemma_header_value_by_position(headers: Headers, name: Seq<char>)
    ensures
        header_value(headers, name) == match last_position(
            lowered_names(headers),
            lowercase_of(name),
        ) {
            Some(i) => Some(headers[i].1),
            None => None,
        },
        match last_position(lowered_names(headers), lowercase_of(name)) {
            Some(i) => 0 <= i < headers.len(),
            None => true,
        },
    decreases headers.len(),
{
    if headers.len() > 0 {
        let rest = headers.drop_last();
        assert(lowered_names(headers).drop_last() =~= lowered_names(rest));
        lemma_header_value_by_position(rest, name);
    }
}

/// Where `wanted` stands last in `names`, if it stands there at all.
pub fn last_index_of(names: &Vec<String>, wanted: &String) -> (at: Option<usize>)
    ensures
        match at {
            Some(i) => last_position(names.deep_view(), wanted@) == Some(i as int),
            None => last_position(names.deep_view(), wanted@) is None,
        },
{
    let ghost all = names.deep_view();
    let mut i: usize = names.len();
    proof {
        assert(all.take(i as int) =~= all);
    }
    while i > 0
        invariant
            0 <= i <= names.len(),
            all == names.deep_view(),
            last_position(all, wanted@) == last_position(all.take(i as int), wanted@),
        decreases i,
    {
        i = i - 1;
        proof {
            let upto = all.take(i as int + 1);
            assert(upto.last() == names[i as int]@);
            assert(upto.drop_last() =~= all.take(i as int));
        }
        if names[i] == *wanted {
            return Some(i);
        }
    }
    None
}

/// The value that `headers` gives to the header `name`, where `lowered`
/// holds the lower-case forms of the names of `headers`.
pub fn find_header(headers: &Vec<(String, String)>, lowered: &Vec<String>, name: &String) -> (found:
    Option<String>)
    requires
        lowered.len() == headers.len(),
        forall|i: int|
            0 <= i < headers.len() ==> (#[trigger] lowered[i])@ == lowercase_of(headers[i].0@),
    ensures
        found.deep_view() == header_value(headers.deep_view(), name@),
{
    let wanted = lowercase(name);
    proof {
        assert(lowered.deep_view() =~= lowered_names(headers.deep_view()));
        lemma_header_value_by_position(headers.deep_view(), name@);
    }
    match last_index_of(lowered, &wanted) {
        Some(i) => Some(headers[i].1.clone()),
        None => None,
    }
}

/// The value that the request headers give to the header `name`.
pub fn header_value_of(headers: &Vec<(String, String)>, name: &String) -> (found: Option<String>)
    ensures
        found.deep_view() == header_value(headers.deep_view(), name@),
{
    let lowered = lower_names(headers);
    find_header(headers, &lowered, name)
}

/// The headers that are sent to the server for a request that carries
/// `headers`.
pub fn select_important(important: &Vec<String>, headers: &Vec<(String, String)>) -> (selected: Vec<
    (String, String),
>)
    ensures
        selected.deep_view() == important_values(important.deep_view(), headers.deep_view()),
{
    let lowered = lower_names(headers);
    let ghost names = important.deep_view();
    let ghost all = headers.deep_view();
    let mut selected: Vec<(String, String)> = Vec::new();
    let mut k: usize = 0;
    while k < important.len()
        invariant
            0 <= k <= important.len(),
            names == important.deep_view(),
            all == headers.deep_view(),
            lowered.len() == headers.len(),
            forall|j: int|
                0 <= j < headers.len() ==> (#[trigger] lowered[j])@ == lowercase_of(headers[j].0@),
            selected.deep_view() == important_values(names.take(k as int), all),
        decreases important.len() - k,
    {
        let ghost before = selected.deep_view();
        proof {
            let upto = names.take(k as int + 1);
            assert(upto.last() == important[k as int]@);
            assert(upto.drop_last() =~= names.take(k as int));
        }
        match find_header(headers, &lowered, &important[k]) {
            Some(value) => {
                if !value.as_str().is_empty() {
                    let name = important[k].clone();
                    selected.push((name, value));
                    assert(selected.deep_view() =~= before.push((important[k as int]@, value@)));
                }
            },
            None => {},
        }
        k = k + 1;
    }
    proof {
        assert(names.take(important.len() as int) =~= names);
    }
    selected
}

/// The text that is digested for a request that carries `headers`.
pub fn build_key_text(important: &Vec<String>, headers: &Vec<(String, String)>) -> (text: String)
    ensures
        text@ == key_text(important.deep_view(), headers.deep_view()),
{
    let lowered = lower_names(headers);
    let ghost names = important.deep_view();
    let ghost all = headers.deep_view();
    let mut text = String::new();
    let mut k: usize = 0;
    while k < important.len()
        invariant
            0 <= k <= important.len(),
            names == important.deep_view(),
            all == headers.deep_view(),
            lowered.len() == headers.len(),
            forall|j: int|
                0 <= j < headers.len() ==> (#[trigger] lowered[j])@ == lowercase_of(headers[j].0@),
            text@ == key_text(names.take(k as int), all),
        decreases important.len() - k,
    {
        proof {
            let upto = names.take(k as int + 1);
            assert(upto.last() == important[k as int]@);
            assert(upto.drop_last() =~= names.take(k as int));
        }
        if !important[k].as_str().is_empty() {
            match find_header(headers, &lowered, &important[k]) {
                Some(value) => {
                    text.append(value.as_str());
                },
                None => {},
            }
        }
        proof {
            assert(text@ =~= key_text(names.take(k as int + 1), all));
        }
        k = k + 1;
    }
    proof {
        assert(names.take(important.len() as int) =~= names);
    }
    text
}

/// The cache key of a request that carries `headers`: the digest of the
/// values of its important headers. A request that carries none of them
/// gets the digest of the empty text.
pub fn cache_key(important: &Vec<String>, headers: &Vec<(String, String)>) -> (key: String)
    ensures
        key@ == cache_key_of(important.deep_view(), headers.deep_view()),
        key@.len() == 32,
{
    let text = build_key_text(important, headers);
    digest_text(&text)
}

/// Where a header's value comes from: the last header of that name, if any.
pub proof fn lemma_header_value(headers: Headers, name: Seq<char>)
    ensures
        match header_value(headers, name) {
            Some(value) => exists|i: int|
                0 <= i < headers.len() && same_name((#[trigger] headers[i]).0, name) && headers[i].1
                    == value,
            None => forall|i: int|
                0 <= i < headers.len() ==> !same_name((#[trigger] headers[i]).0, name),
        },
    decreases headers.len(),
{
    if headers.len() == 0 {
    } else if same_name(headers.last().0, name) {
        assert(headers[headers.len() - 1] == headers.last());
    } else {
        let rest = headers.drop_last();
        lemma_header_value(rest, name);
        match header_value(rest, name) {
            Some(value) => {
                let i = choose|i: int|
                    0 <= i < rest.len() && same_name((#[trigger] rest[i]).0, name) && rest[i].1
                        == value;
                assert(headers[i] == rest[i]);
            },
            None => {
                assert forall|i: int| 0 <= i < headers.len() implies !same_name(
                    (#[trigger] headers[i]).0,
                    name,
                ) by {
                    if i < rest.len() {
                        assert(headers[i] == rest[i]);
                    }
                }
            },
        }
    }
}

/// Among headers with unique names, a header's value is that of the one
/// header so named, wherever it stands.
pub proof fn lemma_header_value_unique(headers: Headers, name: Seq<char>, i: int)
    requires
        names_unique(headers),
        0 <= i < headers.len(),
        same_name(headers[i].0, name),
    ensures
        header_value(headers, name) == Some(headers[i].1),
    decreases headers.len(),
{
    let last = headers.len() - 1;
    if i == last {
    } else {
        assert(!same_name(headers[i].0, headers[last].0));
        let rest = headers.drop_last();
        assert(rest[i] == headers[i]);
        assert forall|a: int, b: int| 0 <= a < b < rest.len() implies !same_name(
            (#[trigger] rest[a]).0,
            (#[trigger] rest[b]).0,
        ) by {
            assert(rest[a] == headers[a] && rest[b] == headers[b]);
        }
        lemma_header_value_unique(rest, name, i);
    }
}

/// The key and the headers sent depend on the request only through the
/// values it gives to the important headers.
pub proof fn law_key_from_values(important: Seq<Seq<char>>, a: Headers, b: Headers)
    requires
        forall|k: int|
            0 <= k < important.len() ==> header_value(a, #[trigger] important[k]) == header_value(
                b,
                important[k],
            ),
    ensures
        key_text(important, a) == key_text(important, b),
        cache_key_of(important, a) == cache_key_of(important, b),
        important_values(important, a) == important_values(important, b),
    decreases important.len(),
{
    if important.len() > 0 {
        let rest = important.drop_last();
        assert forall|k: int| 0 <= k < rest.len() implies header_value(a, #[trigger] rest[k])
            == header_value(b, rest[k]) by {
            assert(rest[k] == important[k]);
        }
        law_key_from_values(rest, a, b);
        assert(important.last() == important[important.len() - 1]);
    }
}

/// Key determinism: two requests whose headers have unique names and agree
/// on every important header get the same key and send the same headers,
/// whatever the order of their headers, the casing of the names, and the
/// other headers that either of them carries.
pub proof fn law_key_determinism(important: Seq<Seq<char>>, a: Headers, b: Headers)
    requires
        names_unique(a),
        names_unique(b),
        forall|i: int|
            0 <= i < a.len() && is_important(important, (#[trigger] a[i]).0) ==> exists|j: int|
                0 <= j < b.len() && same_name((#[trigger] b[j]).0, a[i].0) && b[j].1 == a[i].1,
        forall|j: int|
            0 <= j < b.len() && is_important(important, (#[trigger] b[j]).0) ==> exists|i: int|
                0 <= i < a.len() && same_name((#[trigger] a[i]).0, b[j].0) && a[i].1 == b[j].1,
    ensures
        cache_key_of(important, a) == cache_key_of(important, b),
        important_values(important, a) == important_values(important, b),
{
    assert forall|k: int| 0 <= k < important.len() implies header_value(a, #[trigger] important[k])
        == header_value(b, important[k]) by {
        let name = important[k];
        lemma_header_value(a, name);
        lemma_header_value(b, name);
        match header_value(a, name) {
            Some(value) => {
                let i = choose|i: int|
                    0 <= i < a.len() && same_name((#[trigger] a[i]).0, name) && a[i].1 == value;
                assert(is_important(important, a[i].0));
                let j = choose|j: int|
                    0 <= j < b.len() && same_name((#[trigger] b[j]).0, a[i].0) && b[j].1 == a[i].1;
                lemma_header_value_unique(b, name, j);
            },
            None => {
                match header_value(b, name) {
                    Some(value) => {
                        let j = choose|j: int|
                            0 <= j < b.len() && same_name((#[trigger] b[j]).0, name) && b[j].1
                                == value;
                        assert(is_important(important, b[j].0));
                        let i = choose|i: int|
                            0 <= i < a.len() && same_name((#[trigger] a[i]).0, b[j].0) && a[i].1
                                == b[j].1;
                        assert(same_name(a[i].0, name));
                    },
                    None => {},
                }
            },
        }
    }
    law_key_from_values(important, a, b);
}

/// A request that carries none of the important headers gets the digest of
/// the empty text as its key and sends no header.
pub proof fn law_key_without_important(important: Seq<Seq<char>>, headers: Headers)
    requires
        forall|i: int|
            0 <= i < headers.len() ==> !is_important(important, (#[trigger] headers[i]).0),
    ensures
        key_text(important, headers) == Seq::<char>::empty(),
        cache_key_of(important, headers) == digest_of(Seq::<char>::empty()),
        important_values(important, headers) == Headers::empty(),
    decreases important.len(),
{
    if important.len() > 0 {
        let rest = important.drop_last();
        assert forall|i: int| 0 <= i < headers.len() implies !is_important(
            rest,
            (#[trigger] headers[i]).0,
        ) by {
            if is_important(rest, headers[i].0) {
                let k = choose|k: int|
                    0 <= k < rest.len() && same_name(#[trigger] rest[k], headers[i].0);
                assert(rest[k] == important[k]);
            }
        }
        law_key_without_important(rest, headers);
        let name = important.last();
        lemma_header_value(headers, name);
        if header_value(headers, name) is Some {
            let i = choose|i: int|
                0 <= i < headers.len() && same_name((#[trigger] headers[i]).0, name);
            assert(important[important.len() - 1] == name);
            assert(is_important(important, headers[i].0));
        }
    }
}

} // verus!
