//! The list of deployed service names: kept in order, each name once, and
//! stored as JSON text.

use crate::text::same_text;
use vstd::prelude::*;

verus! {

/// `serde_json::Error`, the reason why the JSON crate refuses a value or a
/// text. Nothing is known of what it holds.
#[verifier::external_type_specification]
#[verifier::external_body]
pub struct ExJsonError(serde_json::Error);

/// The JSON text that `serde_json::to_string` writes for a list of strings;
/// `None` where it reports an error.
pub uninterp spec fn json_of_names(names: Seq<Seq<char>>) -> Option<Seq<char>>;

/// The list of strings that `serde_json::from_slice` reads from bytes of
/// JSON text; `None` where it reports an error.
pub uninterp spec fn names_of_json(bytes: Seq<u8>) -> Option<Seq<Seq<char>>>;

/// Not verified: `serde_json::to_string` on a list of strings. What it
/// writes is not described here but named.
#[verifier::external_body]
fn names_to_json(names: &Vec<String>) -> (res: Result<String, serde_json::Error>)
    ensures
        match res {
            Ok(text) => json_of_names(names.deep_view()) == Some(text@),
            Err(_) => json_of_names(names.deep_view()) is None,
        },
{
    serde_json::to_string(names)
}

/// Not verified: `serde_json::from_slice`, reading a list of strings. What
/// it reads is not described here but named.
#[verifier::external_body]
fn names_from_json(bytes: &[u8]) -> (res: Result<Vec<String>, serde_json::Error>)
    ensures
        match res {
            Ok(names) => names_of_json(bytes@) == Some(names.deep_view()),
            Err(_) => names_of_json(bytes@) is None,
        },
{
    serde_json::from_slice(bytes)
}

/// The name list that was read: the list itself, and the empty list where
/// nothing could be read.
pub fn stored_names(parsed: Option<Vec<String>>) -> (res: Vec<String>)
    ensures
        res.deep_view() == match parsed {
            Some(names) => names.deep_view(),
            None => Seq::empty(),
        },
{
    match parsed {
        Some(names) => names,
        None => {
            let empty: Vec<String> = Vec::new();
            assert(empty.deep_view() =~= Seq::empty());
            empty
        },
    }
}

/// The name list that is stored as `stored`. Where nothing is stored, or
/// what is stored is no JSON list of strings, the list is empty.
pub fn decode_name_list(stored: Option<&[u8]>) -> (res: Vec<String>)
    ensures
        res.deep_view() == match stored {
            Some(bytes) => match names_of_json(bytes@) {
                Some(names) => names,
                None => Seq::empty(),
            },
            None => Seq::empty(),
        },
{
    match stored {
        None => stored_names(None),
        Some(bytes) => match names_from_json(bytes) {
            Ok(names) => stored_names(Some(names)),
            Err(_) => stored_names(None),
        },
    }
}

/// The JSON text under which `names` is stored; `None` where the encoder
/// reports an error.
pub fn encode_name_list(names: &Vec<String>) -> (res: Option<String>)
    ensures
        res.deep_view() == json_of_names(names.deep_view()),
{
    match names_to_json(names) {
        Ok(text) => Some(text),
        Err(_) => None,
    }
}

/// The elements of `s` in the order of their first occurrence, each kept once.
pub open spec fn first_occurrences(s: Seq<Seq<char>>) -> Seq<Seq<char>>
    decreases s.len(),
{
    if s.len() == 0 {
        Seq::empty()
    } else {
        let kept = first_occurrences(s.drop_last());
        if kept.contains(s.last()) {
            kept
        } else {
            kept.push(s.last())
        }
    }
}

/// The name list after `name` has been appended and duplicates dropped.
pub open spec fn with_name(list: Seq<Seq<char>>, name: Seq<char>) -> Seq<Seq<char>> {
    first_occurrences(list.push(name))
}

/// Whether `name` stands in `list` exactly once.
pub open spec fn occurs_once(list: Seq<Seq<char>>, name: Seq<char>) -> bool {
    exists|i: int|
        0 <= i < list.len() && list[i] == name && forall|j: int|
            0 <= j < list.len() && list[j] == name ==> j == i
}

/// Keeping first occurrences keeps exactly the elements that were there, and
/// none of them twice.
pub proof fn lemma_first_occurrences(s: Seq<Seq<char>>)
    ensures
        first_occurrences(s).no_duplicates(),
        forall|x: Seq<char>| #[trigger] first_occurrences(s).contains(x) ==> s.contains(x),
        forall|x: Seq<char>| #[trigger] s.contains(x) ==> first_occurrences(s).contains(x),
        first_occurrences(s).len() <= s.len(),
    decreases s.len(),
{
    if s.len() > 0 {
        let init = s.drop_last();
        let kept = first_occurrences(init);
        let all = first_occurrences(s);
        lemma_first_occurrences(init);
        assert forall|x: Seq<char>| #[trigger] all.contains(x) implies s.contains(x) by {
            let k = choose|k: int| 0 <= k < all.len() && all[k] == x;
            if k < kept.len() {
                assert(kept[k] == x);
                assert(kept.contains(x));
                assert(init.contains(x));
                let i = choose|i: int| 0 <= i < init.len() && init[i] == x;
                assert(s[i] == x);
            } else {
                assert(s[s.len() - 1] == x);
            }
        }
        assert forall|x: Seq<char>| #[trigger] s.contains(x) implies all.contains(x) by {
            let i = choose|i: int| 0 <= i < s.len() && s[i] == x;
            if i < s.len() - 1 {
                assert(init[i] == x);
                assert(init.contains(x));
                assert(kept.contains(x));
                let k = choose|k: int| 0 <= k < kept.len() && kept[k] == x;
                assert(all[k] == x);
            } else if !kept.contains(x) {
                assert(all[kept.len() as int] == x);
            }
        }
    }
}

/// A list without duplicates is left as it is.
pub proof fn lemma_first_occurrences_of_distinct(s: Seq<Seq<char>>)
    requires
        s.no_duplicates(),
    ensures
        first_occurrences(s) == s,
    decreases s.len(),
{
    if s.len() > 0 {
        let init = s.drop_last();
        lemma_first_occurrences_of_distinct(init);
        lemma_first_occurrences(init);
        if init.contains(s.last()) {
            let i = choose|i: int| 0 <= i < init.len() && init[i] == s.last();
            assert(s[i] == s[s.len() - 1]);
        }
        assert(init.push(s.last()) =~= s);
    } else {
        assert(s =~= Seq::empty());
    }
}

/// In a list without duplicates, an element that is there is there once.
pub proof fn lemma_distinct_occurs_once(list: Seq<Seq<char>>, name: Seq<char>)
    requires
        list.no_duplicates(),
        list.contains(name),
    ensures
        occurs_once(list, name),
{
    let i = choose|i: int| 0 <= i < list.len() && list[i] == name;
    assert(forall|j: int| 0 <= j < list.len() && list[j] == name ==> j == i);
}

/// Appending a name to a list keeps every name that was there and adds the
/// new one; the result holds each of its names once.
pub proof fn lemma_with_name(list: Seq<Seq<char>>, name: Seq<char>)
    ensures
        with_name(list, name).no_duplicates(),
        occurs_once(with_name(list, name), name),
        forall|x: Seq<char>| #[trigger]
            with_name(list, name).contains(x) ==> list.contains(x) || x == name,
        forall|x: Seq<char>| #[trigger] list.contains(x) ==> with_name(list, name).contains(x),
{
    let pushed = list.push(name);
    lemma_first_occurrences(pushed);
    assert(pushed[list.len() as int] == name);
    assert(pushed.contains(name));
    assert(with_name(list, name).contains(name));
    lemma_distinct_occurs_once(with_name(list, name), name);
    assert forall|x: Seq<char>| #[trigger] with_name(list, name).contains(x) implies list.contains(
        x,
    ) || x == name by {
        assert(pushed.contains(x));
        let i = choose|i: int| 0 <= i < pushed.len() && pushed[i] == x;
        if i < list.len() {
            assert(list[i] == x);
        }
    }
    assert forall|x: Seq<char>| #[trigger] list.contains(x) implies with_name(list, name).contains(
        x,
    ) by {
        let i = choose|i: int| 0 <= i < list.len() && list[i] == x;
        assert(pushed[i] == x);
        assert(pushed.contains(x));
    }
}

/// Two deployments that append their names one after the other, in either
/// order of arrival, leave both names in the list, each exactly once; nothing
/// that the first one wrote is lost by the second.
pub proof fn lemma_no_lost_update(list: Seq<Seq<char>>, first: Seq<char>, second: Seq<char>)
    ensures
        occurs_once(with_name(with_name(list, first), second), first),
        occurs_once(with_name(with_name(list, first), second), second),
{
    let once = with_name(list, first);
    let twice = with_name(once, second);
    lemma_with_name(list, first);
    lemma_with_name(once, second);
    assert(once.contains(first));
    assert(twice.contains(first));
    lemma_distinct_occurs_once(twice, first);
}

/// A name that is submitted again changes nothing: the list holds it once.
pub proof fn lemma_same_name_twice(list: Seq<Seq<char>>, name: Seq<char>)
    ensures
        with_name(with_name(list, name), name) == with_name(list, name),
        occurs_once(with_name(list, name), name),
{
    let once = with_name(list, name);
    lemma_with_name(list, name);
    assert(once.contains(name));
    assert(once.push(name).drop_last() =~= once);
    lemma_first_occurrences_of_distinct(once);
}

/// The view of a list of names is the list of the names' views.
pub proof fn lemma_names_view(list: &Vec<String>)
    ensures
        list.deep_view().len() == list.len(),
        forall|i: int| 0 <= i < list.len() ==> #[trigger] list.deep_view()[i] == list[i]@,
{
}

/// Whether `name` is one of the names in `list`.
pub fn contains_name(list: &Vec<String>, name: &str) -> (res: bool)
    ensures
        res == list.deep_view().contains(name@),
{
    let mut i: usize = 0;
    proof {
        lemma_names_view(list);
    }
    while i < list.len()
        invariant
            i <= list.len(),
            list.deep_view().len() == list.len(),
            forall|j: int| 0 <= j < list.len() ==> #[trigger] list.deep_view()[j] == list[j]@,
            forall|j: int| 0 <= j < i ==> list[j]@ != name@,
        decreases list.len() - i,
    {
        if same_text(list[i].as_str(), name) {
            assert(list.deep_view()[i as int] == name@);
            return true;
        }
        i += 1;
    }
    false
}

/// The names of `list` in the order of their first occurrence, each once.
pub fn dedup_names(list: &Vec<String>) -> (res: Vec<String>)
    ensures
        res.deep_view() == first_occurrences(list.deep_view()),
{
    let mut kept: Vec<String> = Vec::new();
    let mut i: usize = 0;
    assert(list.deep_view().take(0) =~= Seq::empty());
    while i < list.len()
        invariant
            i <= list.len(),
            kept.deep_view() == first_occurrences(list.deep_view().take(i as int)),
        decreases list.len() - i,
    {
        let ghost before = kept.deep_view();
        let ghost upto = list.deep_view().take(i as int + 1);
        assert(upto.drop_last() =~= list.deep_view().take(i as int));
        assert(upto.last() == list[i as int]@);
        if !contains_name(&kept, list[i].as_str()) {
            kept.push(list[i].clone());
            assert(kept.deep_view() =~= before.push(list[i as int]@));
        }
        i += 1;
    }
    assert(list.deep_view().take(list.len() as int) =~= list.deep_view());
    kept
}

/// Appends `name` to the name list and drops duplicates, so that every name
/// stays where it first stood.
pub fn add_name(list: Vec<String>, name: String) -> (res: Vec<String>)
    ensures
        res.deep_view() == with_name(list.deep_view(), name@),
{
    let mut all = list;
    all.push(name);
    assert(all.deep_view() =~= list.deep_view().push(name@));
    dedup_names(&all)
}

} // verus!
