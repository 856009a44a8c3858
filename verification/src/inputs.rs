//! The inputs of a batch: the eligible files of a folder, in lexicographic
//! order.

use crate::error::{ConvertError, InputError};
use crate::job::{is_document, is_document_name, is_image, is_image_name};
use vstd::multiset::Multiset;
use vstd::prelude::*;

verus! {

/// The kind of source that a converter reads.
#[derive(Debug, Clone, Copy, PartialEq, Eq, Structural)]
pub enum SourceKind {
    /// Documents: files that end in `.pdf`.
    Document,
    /// Images: files that end in `.png`, `.jpg` or `.jpeg`.
    Image,
}

/// Whether a file of this name is a source of the given kind.
pub open spec fn eligible(name: Seq<u8>, kind: SourceKind) -> bool {
    match kind {
        SourceKind::Document => is_document(name),
        SourceKind::Image => is_image(name),
    }
}

/// Decides `eligible`.
pub fn is_eligible(name: &[u8], kind: SourceKind) -> (r: bool)
    ensures
        r == eligible(name@, kind),
{
    match kind {
        SourceKind::Document => is_document_name(name),
        SourceKind::Image => is_image_name(name),
    }
}

/// Lexicographic order on byte strings: the first byte that differs
/// decides, and a string comes before every longer one that starts with it.
pub open spec fn lex_le(a: Seq<u8>, b: Seq<u8>) -> bool
    decreases a.len(),
{
    if a.len() == 0 {
        true
    } else if b.len() == 0 {
        false
    } else if a[0] != b[0] {
        a[0] < b[0]
    } else {
        lex_le(a.drop_first(), b.drop_first())
    }
}

/// Of two strings one comes before the other, or they are the same.
pub proof fn lemma_lex_total(a: Seq<u8>, b: Seq<u8>)
    ensures
        lex_le(a, b) || lex_le(b, a),
    decreases a.len(),
{
    if a.len() > 0 && b.len() > 0 && a[0] == b[0] {
        lemma_lex_total(a.drop_first(), b.drop_first());
    }
}

/// The order is transitive.
pub proof fn lemma_lex_transitive(a: Seq<u8>, b: Seq<u8>, c: Seq<u8>)
    requires
        lex_le(a, b),
        lex_le(b, c),
    ensures
        lex_le(a, c),
    decreases a.len(),
{
    if a.len() > 0 && b.len() > 0 && c.len() > 0 {
        if a[0] == b[0] && b[0] == c[0] {
            lemma_lex_transitive(a.drop_first(), b.drop_first(), c.drop_first());
        }
    }
}

/// Decides `lex_le`.
pub fn name_le(a: &[u8], b: &[u8]) -> (r: bool)
    ensures
        r == lex_le(a@, b@),
{
    let mut i: usize = 0;
    proof {
        assert(a@.skip(0) =~= a@);
        assert(b@.skip(0) =~= b@);
    }
    while i < a.len() && i < b.len()
        invariant
            i <= a.len(),
            i <= b.len(),
            lex_le(a@, b@) == lex_le(a@.skip(i as int), b@.skip(i as int)),
        decreases a.len() - i,
    {
        proof {
            assert(a@.skip(i as int)[0] == a@[i as int]);
            assert(b@.skip(i as int)[0] == b@[i as int]);
            assert(a@.skip(i as int).drop_first() =~= a@.skip(i + 1));
            assert(b@.skip(i as int).drop_first() =~= b@.skip(i + 1));
        }
        if a[i] != b[i] {
            return a[i] < b[i];
        }
        i += 1;
    }
    i == a.len()
}

/// The names stand in lexicographic order.
pub open spec fn is_sorted(names: Seq<Vec<u8>>) -> bool {
    forall|i: int, j: int| 0 <= i < j < names.len() ==> lex_le(names[i]@, names[j]@)
}

/// The names that are sources of the given kind, in the order they came.
pub open spec fn eligible_names(names: Seq<Vec<u8>>, kind: SourceKind) -> Seq<Vec<u8>>
    decreases names.len(),
{
    if names.len() == 0 {
        Seq::empty()
    } else if eligible(names.last()@, kind) {
        eligible_names(names.drop_last(), kind).push(names.last())
    } else {
        eligible_names(names.drop_last(), kind)
    }
}

fn insert_sorted(sorted: &mut Vec<Vec<u8>>, name: Vec<u8>)
    requires
        is_sorted(old(sorted)@),
    ensures
        is_sorted(final(sorted)@),
        final(sorted)@.to_multiset() == old(sorted)@.to_multiset().insert(name),
        final(sorted).len() == old(sorted).len() + 1,
{
    let mut at: usize = 0;
    while at < sorted.len() && name_le(sorted[at].as_slice(), name.as_slice())
        invariant
            at <= sorted.len(),
            forall|j: int| 0 <= j < at ==> lex_le(sorted@[j]@, name@),
        decreases sorted.len() - at,
    {
        at += 1;
    }
    let ghost before = sorted@;
    proof {
        before.insert_ensures(at as int, name);
        vstd::seq_lib::to_multiset_insert(before, at as int, name);
        let after = before.insert(at as int, name);
        assert forall|j: int| at <= j < before.len() implies lex_le(name@, before[j]@) by {
            lemma_lex_total(before[at as int]@, name@);
            if j > at {
                lemma_lex_transitive(name@, before[at as int]@, before[j]@);
            }
        }
        assert forall|i: int, j: int| 0 <= i < j < after.len() implies lex_le(
            after[i]@,
            after[j]@,
        ) by {
            if j < at {
                assert(after[i] == before[i] && after[j] == before[j]);
            } else if j == at {
                assert(after[i] == before[i]);
            } else if i < at {
                assert(after[i] == before[i]);
                assert(after[j] == before[j - 1]);
            } else if i == at {
                assert(after[j] == before[j - 1]);
            } else {
                assert(after[i] == before[i - 1]);
                assert(after[j] == before[j - 1]);
            }
        }
    }
    sorted.insert(at, name);
}

/// Picks the sources of the given kind out of the names of a folder's
/// entries and puts them in lexicographic order.
///
/// Fails with `NoFiles` exactly when no name is eligible. Otherwise the
/// result holds the eligible names, each as often as it came, in order.
pub fn select_inputs(names: Vec<Vec<u8>>, kind: SourceKind) -> (r: Result<
    Vec<Vec<u8>>,
    ConvertError,
>)
    ensures
        r is Err <==> eligible_names(names@, kind).len() == 0,
        r matches Err(e) ==> e == ConvertError::Input(InputError::NoFiles),
        r matches Ok(inputs) ==> {
            &&& is_sorted(inputs@)
            &&& inputs@.to_multiset() == eligible_names(names@, kind).to_multiset()
            &&& inputs.len() == eligible_names(names@, kind).len()
        },
{
    let mut rest = names;
    let mut inputs: Vec<Vec<u8>> = Vec::new();
    proof {
        broadcast use vstd::multiset::group_multiset_axioms;

        assert(inputs@.to_multiset() =~= Multiset::<Vec<u8>>::empty()) by {
            inputs@.to_multiset_ensures();
        }
        assert(inputs@.to_multiset().add(eligible_names(rest@, kind).to_multiset())
            =~= eligible_names(names@, kind).to_multiset());
    }
    while rest.len() > 0
        invariant
            is_sorted(inputs@),
            inputs@.to_multiset().add(eligible_names(rest@, kind).to_multiset())
                == eligible_names(names@, kind).to_multiset(),
            inputs.len() + eligible_names(rest@, kind).len() == eligible_names(names@, kind).len(),
        decreases rest.len(),
    {
        let ghost before = rest@;
        let ghost sorted_before = inputs@;
        let name: Vec<u8> = rest.pop().unwrap();
        proof {
            assert(rest@ =~= before.drop_last());
            assert(name == before.last());
        }
        if is_eligible(name.as_slice(), kind) {
            proof {
                broadcast use vstd::multiset::group_multiset_axioms;

                let kept = eligible_names(rest@, kind);
                vstd::seq_lib::to_multiset_build(kept, name);
                assert(eligible_names(before, kind) == kept.push(name));
                assert(sorted_before.to_multiset().insert(name).add(kept.to_multiset())
                    =~= sorted_before.to_multiset().add(kept.to_multiset().insert(name)));
            }
            insert_sorted(&mut inputs, name);
        }
    }
    proof {
        broadcast use vstd::multiset::group_multiset_axioms;

        assert(eligible_names(rest@, kind).to_multiset() =~= Multiset::<Vec<u8>>::empty()) by {
            eligible_names(rest@, kind).to_multiset_ensures();
        }
        assert(inputs@.to_multiset() =~= eligible_names(names@, kind).to_multiset());
    }
    if inputs.len() == 0 {
        Err(ConvertError::Input(InputError::NoFiles))
    } else {
        Ok(inputs)
    }
}

} // verus!
