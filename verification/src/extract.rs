//! Extraction of user-facing messages from a list of consensus errors.
//!
//! Each basic error becomes one formatted line: a JSON-schema error gets the
//! dedicated `JsonSchemaError: <summary>, Path: <path>` rendering, any other
//! basic error contributes its own display text, and every non-basic error is
//! dropped.  The resulting list is then reduced to its distinct messages.

use vstd::prelude::*;
use vstd::seq_lib::lemma_seq_concat_contains_all_elements;
use crate::errors::BasicError;
use crate::errors::ConsensusError;
use crate::errors::render_instance_path;
use crate::errors::rendered_path;

verus! {

/// The message one consensus error contributes: the dedicated rendering for
/// a JSON-schema error, the error's own display text for any other basic
/// error, and nothing at all for a non-basic error.
pub open spec fn formatted_message(e: ConsensusError) -> Option<Seq<char>> {
    match e {
        ConsensusError::Basic(BasicError::JsonSchema(j)) => Some(
            "JsonSchemaError: "@ + j.error_summary@ + ", Path: "@ + rendered_path(
                j.instance_path@,
            ),
        ),
        ConsensusError::Basic(BasicError::Other(text)) => Some(text@),
        ConsensusError::NonBasic => None,
    }
}

/// The messages of a list of errors, in order, duplicates included.
pub open spec fn raw_messages(errs: Seq<ConsensusError>) -> Seq<Seq<char>>
    decreases errs.len(),
{
    if errs.len() == 0 {
        Seq::empty()
    } else {
        match formatted_message(errs[0]) {
            Some(m) => seq![m] + raw_messages(errs.drop_first()),
            None => raw_messages(errs.drop_first()),
        }
    }
}

/// A list of strings as the list of their character sequences.
pub open spec fn message_views(msgs: Seq<String>) -> Seq<Seq<char>> {
    msgs.map_values(|s: String| s@)
}

/// What is left of a message list once every message that already occurred
/// earlier, or that stands in `seen`, is removed.
pub open spec fn dedup_from(msgs: Seq<Seq<char>>, seen: Set<Seq<char>>) -> Seq<Seq<char>>
    decreases msgs.len(),
{
    if msgs.len() == 0 {
        Seq::empty()
    } else if seen.contains(msgs[0]) {
        dedup_from(msgs.drop_first(), seen)
    } else {
        seq![msgs[0]] + dedup_from(msgs.drop_first(), seen.insert(msgs[0]))
    }
}

/// A message list reduced to the first occurrence of each distinct message.
pub open spec fn deduped(msgs: Seq<Seq<char>>) -> Seq<Seq<char>> {
    dedup_from(msgs, Set::empty())
}

/// The deduplicated messages of a list of errors.
pub open spec fn extracted_messages(errs: Seq<ConsensusError>) -> Seq<Seq<char>> {
    deduped(raw_messages(errs))
}

/// A non-empty list contains a value exactly when its head is that value or
/// its tail contains it.
proof fn lemma_contains_head(s: Seq<Seq<char>>, x: Seq<char>)
    requires
        s.len() > 0,
    ensures
        s.contains(x) <==> (s[0] == x || s.drop_first().contains(x)),
{
    broadcast use lemma_seq_concat_contains_all_elements;

    assert(s =~= seq![s[0]] + s.drop_first());
    assert(seq![s[0]].contains(x) <==> s[0] == x) by {
        if seq![s[0]].contains(x) {
            let i = choose|i: int| 0 <= i < 1 && seq![s[0]][i] == x;
            assert(seq![s[0]][0] == x);
        }
        if s[0] == x {
            assert(seq![s[0]][0] == x);
        }
    }
}

/// Appending one error appends that error's message, if it has one.
proof fn lemma_raw_messages_push(errs: Seq<ConsensusError>, e: ConsensusError)
    ensures
        raw_messages(errs.push(e)) == raw_messages(errs) + (match formatted_message(e) {
            Some(m) => seq![m],
            None => Seq::<Seq<char>>::empty(),
        }),
    decreases errs.len(),
{
    let t = errs.push(e);
    let tail = (match formatted_message(e) {
        Some(m) => seq![m],
        None => Seq::<Seq<char>>::empty(),
    });
    if errs.len() == 0 {
        assert(t.drop_first() =~= Seq::<ConsensusError>::empty());
        assert(t[0] == e);
        assert(raw_messages(Seq::<ConsensusError>::empty()) =~= Seq::<Seq<char>>::empty());
        assert(raw_messages(t) =~= raw_messages(errs) + tail);
    } else {
        assert(t.drop_first() =~= errs.drop_first().push(e));
        lemma_raw_messages_push(errs.drop_first(), e);
        assert(t[0] == errs[0]);
        assert(raw_messages(t) =~= raw_messages(errs) + tail);
    }
}

/// Appending one message to a list appends it to the deduplicated list
/// exactly when it was not seen anywhere before.
proof fn lemma_dedup_push(msgs: Seq<Seq<char>>, x: Seq<char>, seen: Set<Seq<char>>)
    ensures
        dedup_from(msgs.push(x), seen) == dedup_from(msgs, seen) + (if seen.contains(x)
            || msgs.contains(x) {
            Seq::<Seq<char>>::empty()
        } else {
            seq![x]
        }),
    decreases msgs.len(),
{
    let t = msgs.push(x);
    let tail = (if seen.contains(x) || msgs.contains(x) {
        Seq::<Seq<char>>::empty()
    } else {
        seq![x]
    });
    if msgs.len() == 0 {
        assert(t.drop_first() =~= Seq::<Seq<char>>::empty());
        assert(t[0] == x);
        assert(!msgs.contains(x));
        assert(dedup_from(Seq::<Seq<char>>::empty(), seen) =~= Seq::<Seq<char>>::empty());
        assert(dedup_from(Seq::<Seq<char>>::empty(), seen.insert(x)) =~= Seq::<Seq<char>>::empty());
        assert(dedup_from(t, seen) =~= dedup_from(msgs, seen) + tail);
    } else {
        assert(t.drop_first() =~= msgs.drop_first().push(x));
        assert(t[0] == msgs[0]);
        lemma_contains_head(msgs, x);
        if seen.contains(msgs[0]) {
            lemma_dedup_push(msgs.drop_first(), x, seen);
            assert(dedup_from(t, seen) =~= dedup_from(msgs, seen) + tail);
        } else {
            lemma_dedup_push(msgs.drop_first(), x, seen.insert(msgs[0]));
            assert(seen.insert(msgs[0]).contains(x) <==> (seen.contains(x) || msgs[0] == x));
            assert(dedup_from(t, seen) =~= dedup_from(msgs, seen) + tail);
        }
    }
}

/// Deduplication keeps exactly the messages of the input that are not in
/// `seen`: nothing is invented and nothing distinct is lost.
pub proof fn lemma_dedup_membership(msgs: Seq<Seq<char>>, seen: Set<Seq<char>>)
    ensures
        forall|x: Seq<char>|
            #[trigger] dedup_from(msgs, seen).contains(x) <==> (msgs.contains(x)
                && !seen.contains(x)),
    decreases msgs.len(),
{
    broadcast use lemma_seq_concat_contains_all_elements;

    if msgs.len() == 0 {
        assert forall|x: Seq<char>|
            #[trigger] dedup_from(msgs, seen).contains(x) <==> (msgs.contains(x)
                && !seen.contains(x)) by {
            assert(dedup_from(msgs, seen) =~= Seq::<Seq<char>>::empty());
            assert(!dedup_from(msgs, seen).contains(x));
            assert(!msgs.contains(x));
        }
    } else if seen.contains(msgs[0]) {
        lemma_dedup_membership(msgs.drop_first(), seen);
        let rest = dedup_from(msgs.drop_first(), seen);
        assert(dedup_from(msgs, seen) == rest);
        assert forall|x: Seq<char>|
            #[trigger] dedup_from(msgs, seen).contains(x) <==> (msgs.contains(x)
                && !seen.contains(x)) by {
            lemma_contains_head(msgs, x);
            assert(rest.contains(x) <==> (msgs.drop_first().contains(x) && !seen.contains(x)));
        }
    } else {
        lemma_dedup_membership(msgs.drop_first(), seen.insert(msgs[0]));
        let rest = dedup_from(msgs.drop_first(), seen.insert(msgs[0]));
        assert(dedup_from(msgs, seen) == seq![msgs[0]] + rest);
        assert forall|x: Seq<char>|
            #[trigger] dedup_from(msgs, seen).contains(x) <==> (msgs.contains(x)
                && !seen.contains(x)) by {
            lemma_contains_head(msgs, x);
            assert((seq![msgs[0]] + rest).contains(x) <==> (seq![msgs[0]].contains(x)
                || rest.contains(x)));
            assert(rest.contains(x) <==> (msgs.drop_first().contains(x) && !seen.insert(
                msgs[0],
            ).contains(x)));
            assert(seq![msgs[0]].contains(x) <==> msgs[0] == x) by {
                if seq![msgs[0]].contains(x) {
                    let i = choose|i: int| 0 <= i < 1 && seq![msgs[0]][i] == x;
                    assert(seq![msgs[0]][0] == x);
                }
                if msgs[0] == x {
                    assert(seq![msgs[0]][0] == x);
                }
            }
        }
    }
}

/// No message appears twice in a deduplicated list.
pub proof fn lemma_dedup_distinct(msgs: Seq<Seq<char>>, seen: Set<Seq<char>>)
    ensures
        forall|i: int, j: int|
            0 <= i < j < dedup_from(msgs, seen).len() ==> dedup_from(msgs, seen)[i] != dedup_from(
                msgs,
                seen,
            )[j],
    decreases msgs.len(),
{
    if msgs.len() == 0 {
    } else if seen.contains(msgs[0]) {
        lemma_dedup_distinct(msgs.drop_first(), seen);
        assert(dedup_from(msgs, seen) == dedup_from(msgs.drop_first(), seen));
    } else {
        let rest = dedup_from(msgs.drop_first(), seen.insert(msgs[0]));
        let whole = dedup_from(msgs, seen);
        lemma_dedup_distinct(msgs.drop_first(), seen.insert(msgs[0]));
        lemma_dedup_membership(msgs.drop_first(), seen.insert(msgs[0]));
        assert(whole == seq![msgs[0]] + rest);
        assert(whole[0] == msgs[0]);
        assert(!rest.contains(msgs[0]));
        assert forall|i: int, j: int| 0 <= i < j < whole.len() implies whole[i] != whole[j] by {
            if i == 0 {
                assert(whole[j] == rest[j - 1]);
                assert(rest.contains(rest[j - 1]));
            } else {
                assert(whole[i] == rest[i - 1] && whole[j] == rest[j - 1]);
            }
        }
    }
}

/// A collection holding only non-basic errors yields no message at all, even
/// though the collection itself was non-empty: the extractor deliberately
/// reports nothing but basic errors.
pub proof fn lemma_non_basic_yields_nothing(errs: Seq<ConsensusError>)
    requires
        forall|i: int| 0 <= i < errs.len() ==> errs[i] is NonBasic,
    ensures
        extracted_messages(errs) == Seq::<Seq<char>>::empty(),
    decreases errs.len(),
{
    if errs.len() == 0 {
        assert(extracted_messages(errs) =~= Seq::<Seq<char>>::empty());
    } else {
        assert(errs[0] is NonBasic);
        assert(forall|i: int| 0 <= i < errs.drop_first().len() ==> errs.drop_first()[i] is NonBasic);
        lemma_non_basic_yields_nothing(errs.drop_first());
        assert(raw_messages(errs) == raw_messages(errs.drop_first()));
    }
}

/// Extraction loses nothing distinct and invents nothing: a message is in the
/// extracted list exactly when some error of the input formats to it.
pub proof fn lemma_extraction_complete(errs: Seq<ConsensusError>)
    ensures
        forall|x: Seq<char>|
            #[trigger] extracted_messages(errs).contains(x) <==> raw_messages(errs).contains(x),
{
    lemma_dedup_membership(raw_messages(errs), Set::empty());
}

/// No message appears twice in an extracted list.
pub proof fn lemma_extraction_distinct(errs: Seq<ConsensusError>)
    ensures
        forall|i: int, j: int|
            0 <= i < j < extracted_messages(errs).len() ==> extracted_messages(errs)[i]
                != extracted_messages(errs)[j],
{
    lemma_dedup_distinct(raw_messages(errs), Set::empty());
}

/// Formats one consensus error, or returns nothing for an error of a
/// non-basic category.
pub fn format_error(e: &ConsensusError) -> (r: Option<String>)
    ensures
        r is Some <==> formatted_message(*e) is Some,
        r is Some ==> r.unwrap()@ == formatted_message(*e).unwrap(),
{
    match e {
        ConsensusError::Basic(inner) => match inner {
            BasicError::JsonSchema(j) => {
                let mut s = String::from_str("JsonSchemaError: ");
                s.append(j.error_summary.as_str());
                s.append(", Path: ");
                let rendered = render_instance_path(&j.instance_path);
                s.append(rendered.as_str());
                Some(s)
            },
            BasicError::Other(text) => Some(text.clone()),
        },
        ConsensusError::NonBasic => None,
    }
}

/// Whether a message with the same text already stands in the list.
fn contains_message(msgs: &Vec<String>, m: &String) -> (b: bool)
    ensures
        b == message_views(msgs@).contains(m@),
{
    let mut k: usize = 0;
    while k < msgs.len()
        invariant
            k <= msgs@.len(),
            forall|j: int| 0 <= j < k ==> message_views(msgs@)[j] != m@,
        decreases msgs@.len() - k,
    {
        if msgs[k].eq(m) {
            proof {
                assert(message_views(msgs@)[k as int] == m@);
            }
            return true;
        }
        k = k + 1;
    }
    proof {
        if message_views(msgs@).contains(m@) {
            let j = choose|j: int|
                0 <= j < message_views(msgs@).len() && message_views(msgs@)[j] == m@;
        }
    }
    false
}

/// Reduces a message list to the first occurrence of each distinct message.
pub fn dedup_messages(msgs: &Vec<String>) -> (out: Vec<String>)
    ensures
        message_views(out@) == deduped(message_views(msgs@)),
{
    let mut out: Vec<String> = Vec::new();
    let mut k: usize = 0;
    proof {
        assert(message_views(out@) =~= deduped(message_views(msgs@.take(0))));
    }
    while k < msgs.len()
        invariant
            k <= msgs@.len(),
            message_views(out@) == deduped(message_views(msgs@.take(k as int))),
        decreases msgs@.len() - k,
    {
        let ghost prefix = message_views(msgs@.take(k as int));
        let m = &msgs[k];
        let present = contains_message(&out, m);
        if !present {
            out.push(m.clone());
        }
        proof {
            lemma_dedup_push(prefix, msgs@[k as int]@, Set::empty());
            lemma_dedup_membership(prefix, Set::empty());
            assert(message_views(msgs@.take((k + 1) as int)) =~= prefix.push(msgs@[k as int]@));
            assert(message_views(out@) =~= deduped(message_views(msgs@.take((k + 1) as int))));
        }
        k = k + 1;
    }
    proof {
        assert(msgs@.take(msgs@.len() as int) =~= msgs@);
    }
    out
}

/// Converts a list of consensus errors to the deduplicated list of their
/// user-facing messages: one line per basic error, non-basic errors dropped,
/// and of several equal lines only the first kept.
pub fn extract_basic_error_messages(errors: &Vec<ConsensusError>) -> (out: Vec<String>)
    ensures
        message_views(out@) == extracted_messages(errors@),
{
    let mut raw: Vec<String> = Vec::new();
    let mut k: usize = 0;
    proof {
        assert(message_views(raw@) =~= raw_messages(errors@.take(0)));
    }
    while k < errors.len()
        invariant
            k <= errors@.len(),
            message_views(raw@) == raw_messages(errors@.take(k as int)),
        decreases errors@.len() - k,
    {
        match format_error(&errors[k]) {
            Some(s) => raw.push(s),
            None => {},
        }
        proof {
            lemma_raw_messages_push(errors@.take(k as int), errors@[k as int]);
            assert(errors@.take((k + 1) as int) =~= errors@.take(k as int).push(
                errors@[k as int],
            ));
            assert(message_views(raw@) =~= raw_messages(errors@.take((k + 1) as int)));
        }
        k = k + 1;
    }
    proof {
        assert(errors@.take(errors@.len() as int) =~= errors@);
    }
    dedup_messages(&raw)
}

} // verus!
