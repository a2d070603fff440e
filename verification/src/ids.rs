//! The one-character identifiers of a CAPSys job graph.

use std::collections::HashMap;

use vstd::prelude::*;
use vstd::string::*;

use crate::ascending;
use crate::types;

verus! {

broadcast use vstd::std_specs::hash::group_hash_axioms;

/// Every printable ASCII character but `"` and `\`, in the order in which they
/// are given out.
pub const ID_CHARS: &'static str =
    "abcdefghijklmnopqrstuvwxyzABCDEFGHIJKLMNOPQRSTUVWXYZ0123456789!#$%&'()*+,-./:;<=>?@[]^_`{|}~ ";

/// How many operators can be told apart: the number of [`ID_CHARS`].
pub const ID_BUDGET: usize = 93;

/// A printable ASCII character that a JSON string holds as it is.
pub open spec fn is_plain(c: char) -> bool {
    ' ' <= c <= '~' && c != '"' && c != '\\'
}

/// The code of the character at position `i` of [`ID_CHARS`].
spec fn code(i: int) -> int {
    if i < 26 {
        97 + i
    } else if i < 52 {
        65 + i - 26
    } else if i < 62 {
        48 + i - 52
    } else if i < 63 {
        33
    } else if i < 76 {
        35 + i - 63
    } else if i < 83 {
        58 + i - 76
    } else if i < 84 {
        91
    } else if i < 88 {
        93 + i - 84
    } else if i < 92 {
        123 + i - 88
    } else {
        32
    }
}

proof fn lemma_codes()
    ensures
        ID_CHARS@.len() == 93,
        forall|i: int| 0 <= i < 93 ==> #[trigger] ID_CHARS@[i] as int == code(i),
{
    reveal_strlit(
        "abcdefghijklmnopqrstuvwxyzABCDEFGHIJKLMNOPQRSTUVWXYZ0123456789!#$%&'()*+,-./:;<=>?@[]^_`{|}~ ",
    );
}

/// The identifiers are distinct, and they are the characters that are plain.
pub proof fn id_chars_are_unique_and_plain()
    ensures
        ID_CHARS@.len() == ID_BUDGET,
        ID_CHARS@.no_duplicates(),
        forall|c: char| ID_CHARS@.contains(c) <==> is_plain(c),
{
    lemma_codes();
    assert forall|c: char| is_plain(c) implies ID_CHARS@.contains(c) by {
        let n = c as int;
        let i = if 97 <= n <= 122 {
            n - 97
        } else if 65 <= n <= 90 {
            n - 65 + 26
        } else if 48 <= n <= 57 {
            n - 48 + 52
        } else if n == 33 {
            62
        } else if 35 <= n <= 47 {
            n - 35 + 63
        } else if 58 <= n <= 64 {
            n - 58 + 76
        } else if n == 91 {
            83
        } else if 93 <= n <= 96 {
            n - 93 + 84
        } else if 123 <= n <= 126 {
            n - 123 + 88
        } else {
            92
        };
        assert(ID_CHARS@[i] as int == code(i));
        assert(ID_CHARS@[i] == c);
    }
}

/// The identifier of each operator: the first character for the first operator
/// that is retained, the next for the next.
pub open spec fn id_map(retained: Seq<usize>) -> Map<usize, Seq<char>> {
    Map::new(
        |op_id: usize| retained.contains(op_id),
        |op_id: usize| seq![ID_CHARS@[retained.index_of(op_id)]],
    )
}

/// The identifier of an operator, if it has one.
pub open spec fn id_of(ids: Map<usize, Seq<char>>, op_id: usize) -> Option<Seq<char>> {
    if ids.contains_key(op_id) {
        Some(ids[op_id])
    } else {
        None
    }
}

/// The identifiers of the operators that have one, in the order of `op_ids`.
pub open spec fn ids_of(ids: Map<usize, Seq<char>>, op_ids: Seq<usize>) -> Seq<Seq<char>> {
    op_ids.filter_map(|op_id: usize| id_of(ids, op_id))
}

/// A map of identifiers, identifier by identifier.
pub open spec fn ids_view(m: Map<usize, String>) -> Map<usize, Seq<char>> {
    m.map_values(|id: String| id@)
}

/// Gives each retained operator its identifier.
pub fn assign_ids(retained: &Vec<usize>) -> (out: HashMap<usize, String>)
    requires
        ascending::strictly_increasing(retained@),
        retained@.len() <= ID_BUDGET,
    ensures
        ids_view(out@) == id_map(retained@),
{
    proof {
        lemma_codes();
    }
    let mut out: HashMap<usize, String> = HashMap::new();
    for i in 0..retained.len()
        invariant
            ID_CHARS@.len() == ID_BUDGET,
            retained@.len() <= ID_BUDGET,
            ascending::strictly_increasing(retained@),
            forall|op_id: usize| #[trigger]
                out@.contains_key(op_id) <==> retained@.take(i as int).contains(op_id),
            forall|k: int|
                0 <= k < i ==> out@.contains_key(#[trigger] retained@[k]) && out@[retained@[k]]@
                    == seq![ID_CHARS@[k]],
    {
        let id: String = ID_CHARS.substring_char(i, i + 1).to_owned();
        assert(id@ =~= seq![ID_CHARS@[i as int]]);
        out.insert(retained[i], id);
        proof {
            let seen = retained@.take(i as int);
            let next = retained@.take(i + 1);
            assert(next =~= seen.push(retained@[i as int]));
            assert forall|op_id: usize| next.contains(op_id) <==> (seen.contains(op_id) || op_id
                == retained@[i as int]) by {
                if seen.contains(op_id) {
                    let k = choose|k: int| 0 <= k < seen.len() && seen[k] == op_id;
                    assert(next[k] == op_id);
                }
                assert(next[i as int] == retained@[i as int]);
            }
        }
    }
    proof {
        assert(retained@.take(retained@.len() as int) =~= retained@);
        assert forall|op_id: usize| #[trigger] out@.contains_key(op_id) implies out@[op_id]@
            == id_map(retained@)[op_id] by {
            let k = retained@.index_of(op_id);
            assert(retained@[k] == op_id);
        }
        assert(ids_view(out@) =~= id_map(retained@));
    }
    out
}

/// The identifiers of the operators that have one.
pub fn lookup_ids(ids: &HashMap<usize, String>, op_ids: &Vec<usize>) -> (out: Vec<String>)
    ensures
        types::strings_view(out@) == ids_of(ids_view(ids@), op_ids@),
{
    let ghost f = |op_id: usize| id_of(ids_view(ids@), op_id);
    let mut out: Vec<String> = Vec::new();
    assert(types::strings_view(out@) =~= op_ids@.take(0).filter_map(f));
    for i in 0..op_ids.len()
        invariant
            f == |op_id: usize| id_of(ids_view(ids@), op_id),
            types::strings_view(out@) == op_ids@.take(i as int).filter_map(f),
    {
        let ghost before = out@;
        if let Some(id) = ids.get(&op_ids[i]) {
            out.push(id.clone());
            assert(types::strings_view(out@) =~= types::strings_view(before).push(id@));
        }
        proof {
            op_ids@.lemma_filter_map_take_succ(f, i as int);
        }
    }
    assert(op_ids@.take(op_ids@.len() as int) =~= op_ids@);
    out
}

} // verus!
