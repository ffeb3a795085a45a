//! The player directory: one enumeration pass yields entries that either
//! carry a live player's identifier or mark a player that vanished while
//! being enumerated.  Lookups are stateless; a vanished entry is skipped,
//! never an error.

use vstd::prelude::*;

use crate::text::esc_text;
use crate::text::push_escaped;

verus! {

/// One entry of an enumeration pass.
pub enum EnumeratedPlayer {
    /// A live player and its identifier.
    Found(String),
    /// A player that disappeared mid-enumeration; skipped, not an error.
    Vanished,
}

/// Whether the entry at `j` is a live player carrying `id`.
pub open spec fn entry_has_id(entries: Seq<EnumeratedPlayer>, id: Seq<char>, j: int) -> bool {
    0 <= j < entries.len() && (entries[j] matches EnumeratedPlayer::Found(s) && s@ == id)
}

/// The identifiers of the live entries, in enumeration order.
pub open spec fn found_ids(entries: Seq<EnumeratedPlayer>) -> Seq<Seq<char>>
    decreases entries.len(),
{
    if entries.len() == 0 {
        Seq::empty()
    } else {
        (match entries.first() {
            EnumeratedPlayer::Found(s) => seq![s@],
            EnumeratedPlayer::Vanished => Seq::empty(),
        }) + found_ids(entries.drop_first())
    }
}

/// Lists the identifiers of all live entries, in enumeration order.
pub fn list_ids(entries: &Vec<EnumeratedPlayer>) -> (ids: Vec<String>)
    ensures
        ids@.map_values(|s: String| s@) == found_ids(entries@),
{
    let ghost all = entries@;
    let mut ids: Vec<String> = Vec::new();
    let mut i: usize = 0;
    while i < entries.len()
        invariant
            0 <= i <= entries.len(),
            entries@ == all,
            ids@.map_values(|s: String| s@) == found_ids(all.take(i as int)),
        decreases entries.len() - i,
    {
        proof {
            lemma_found_ids_take_step(all, i as int);
        }
        match &entries[i] {
            EnumeratedPlayer::Found(s) => {
                let copied: String = s.clone();
                ids.push(copied);
                proof {
                    assert(ids@.map_values(|s: String| s@) =~= found_ids(all.take(i + 1)));
                }
            },
            EnumeratedPlayer::Vanished => {
                proof {
                    assert(ids@.map_values(|s: String| s@) =~= found_ids(all.take(i + 1)));
                }
            },
        }
        i = i + 1;
    }
    proof {
        assert(all.take(entries@.len() as int) =~= all);
    }
    ids
}

proof fn lemma_found_ids_take_step(entries: Seq<EnumeratedPlayer>, i: int)
    requires
        0 <= i < entries.len(),
    ensures
        found_ids(entries.take(i + 1)) == found_ids(entries.take(i)) + (match entries[i] {
            EnumeratedPlayer::Found(s) => seq![s@],
            EnumeratedPlayer::Vanished => Seq::<Seq<char>>::empty(),
        }),
    decreases i,
{
    let a = entries.take(i + 1);
    assert(a.len() == i + 1);
    if i == 0 {
        assert(a.drop_first() =~= Seq::<EnumeratedPlayer>::empty());
        assert(a.first() == entries[0]);
        assert(found_ids(Seq::<EnumeratedPlayer>::empty()) =~= Seq::<Seq<char>>::empty());
        assert(found_ids(a.drop_first()) =~= Seq::<Seq<char>>::empty());
        assert(found_ids(entries.take(0)) =~= Seq::<Seq<char>>::empty());
        match entries[0] {
            EnumeratedPlayer::Found(s) => {
                assert(found_ids(a) =~= seq![s@]);
                assert(found_ids(entries.take(i)) + seq![s@] =~= seq![s@]);
            },
            EnumeratedPlayer::Vanished => {
                assert(found_ids(a) =~= Seq::<Seq<char>>::empty());
                assert(found_ids(entries.take(i)) + Seq::<Seq<char>>::empty() =~= Seq::<
                    Seq<char>,
                >::empty());
            },
        }
    } else {
        lemma_found_ids_take_step(entries.drop_first(), i - 1);
        assert(a.first() == entries.first());
        assert(a.drop_first() =~= entries.drop_first().take(i));
        assert(entries.take(i).first() == entries.first());
        assert(entries.take(i).drop_first() =~= entries.drop_first().take(i - 1));
        assert(entries.drop_first()[i - 1] == entries[i]);
        match entries.first() {
            EnumeratedPlayer::Found(s) => {
                assert(found_ids(a) == seq![s@] + found_ids(entries.drop_first().take(i)));
                assert(found_ids(entries.take(i + 1)) =~= found_ids(entries.take(i)) + (
                match entries[i] {
                    EnumeratedPlayer::Found(t) => seq![t@],
                    EnumeratedPlayer::Vanished => Seq::<Seq<char>>::empty(),
                }));
            },
            EnumeratedPlayer::Vanished => {
                assert(found_ids(entries.take(i + 1)) =~= found_ids(entries.take(i)) + (
                match entries[i] {
                    EnumeratedPlayer::Found(t) => seq![t@],
                    EnumeratedPlayer::Vanished => Seq::<Seq<char>>::empty(),
                }));
            },
        }
    }
}

/// One identifier as a JSON string literal.
pub open spec fn quoted_json(s: Seq<char>) -> Seq<char> {
    "\""@ + esc_text(s) + "\""@
}

/// The members of a JSON array of strings, comma separated.
pub open spec fn members_json(ids: Seq<Seq<char>>) -> Seq<char>
    decreases ids.len(),
{
    if ids.len() == 0 {
        Seq::empty()
    } else {
        members_json(ids.drop_last()) + (if ids.len() == 1 {
            Seq::<char>::empty()
        } else {
            ","@
        }) + quoted_json(ids.last())
    }
}

/// A JSON array of strings.
pub open spec fn string_list_json(ids: Seq<Seq<char>>) -> Seq<char> {
    "["@ + members_json(ids) + "]"@
}

/// Renders a list of identifiers as a JSON array, as the listing endpoint
/// answers it.
pub fn encode_id_list(ids: &Vec<String>) -> (out: String)
    ensures
        out@ == string_list_json(ids@.map_values(|s: String| s@)),
{
    let ghost view = ids@.map_values(|s: String| s@);
    let mut out = String::new();
    out.append("[");
    let n = ids.len();
    let mut i: usize = 0;
    #[verifier::loop_isolation(false)]
    while i < n
        invariant
            0 <= i <= n,
            n == ids@.len(),
            out@ == "["@ + members_json(view.take(i as int)),
        decreases n - i,
    {
        if i > 0 {
            out.append(",");
        }
        out.append("\"");
        push_escaped(&mut out, ids[i].as_str());
        out.append("\"");
        proof {
            assert(view.take(i + 1).drop_last() =~= view.take(i as int));
            assert(view.take(i + 1).last() == view[i as int]);
            assert(view[i as int] == ids@[i as int]@);
            assert(view.take(i + 1).len() == i + 1);
        }
        i = i + 1;
    }
    out.append("]");
    proof {
        assert(view.take(n as int) =~= view);
    }
    out
}

/// Finds the first live entry carrying `id`; a vanished entry is skipped,
/// and absence is an answer, never an error.
pub fn resolve(entries: &Vec<EnumeratedPlayer>, id: &String) -> (r: Option<usize>)
    ensures
        r matches Some(j) ==> entry_has_id(entries@, id@, j as int) && (forall|k: int|
            0 <= k < j ==> !entry_has_id(entries@, id@, k)),
        r is None ==> forall|k: int| !entry_has_id(entries@, id@, k),
{
    let n = entries.len();
    let mut i: usize = 0;
    while i < n
        invariant
            0 <= i <= n,
            n == entries@.len(),
            forall|k: int| 0 <= k < i ==> !entry_has_id(entries@, id@, k),
        decreases n - i,
    {
        match &entries[i] {
            EnumeratedPlayer::Found(s) => {
                if s.eq(id) {
                    return Some(i);
                }
            },
            EnumeratedPlayer::Vanished => {},
        }
        i = i + 1;
    }
    None
}

/// Every identifier the directory lists resolves: a listed id always has a
/// live entry carrying it, so a lookup for it cannot answer absence.
pub proof fn lemma_listed_id_resolves(entries: Seq<EnumeratedPlayer>, k: int) -> (j: int)
    requires
        0 <= k < found_ids(entries).len(),
    ensures
        entry_has_id(entries, found_ids(entries)[k], j),
    decreases entries.len(),
{
    let ids = found_ids(entries);
    match entries.first() {
        EnumeratedPlayer::Found(s) => {
            if k == 0 {
                assert(entries[0] matches EnumeratedPlayer::Found(t) && t@ == ids[0]);
                0
            } else {
                let j0 = lemma_listed_id_resolves(entries.drop_first(), k - 1);
                assert(found_ids(entries.drop_first())[k - 1] == ids[k]);
                assert(entries[j0 + 1] == entries.drop_first()[j0]);
                j0 + 1
            }
        },
        EnumeratedPlayer::Vanished => {
            let j0 = lemma_listed_id_resolves(entries.drop_first(), k);
            assert(found_ids(entries.drop_first())[k] == ids[k]);
            assert(entries[j0 + 1] == entries.drop_first()[j0]);
            j0 + 1
        },
    }
}

} // verus!
