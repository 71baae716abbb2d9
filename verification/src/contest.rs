//! Finding the position of HEKATE's that an observation runs against.
use vstd::prelude::*;

use crate::model::{Position, Stance, ThoughtContext};
use crate::text::{ascii_lower, ascii_lowercase, chars_of, contains_text, has_substring};

verus! {

/// Whether the text mentions a destructive act (deleting, removing,
/// destroying or overwriting), ignoring ASCII case.
pub open spec fn mentions_destruction(text: Seq<char>) -> bool {
    let lowered = ascii_lower(text);
    ||| contains_text(lowered, "delet"@)
    ||| contains_text(lowered, "remov"@)
    ||| contains_text(lowered, "destroy"@)
    ||| contains_text(lowered, "overwrit"@)
}

/// Whether an opposing position applies to the request: the request names
/// the position's subject, or both speak of a destructive act.
pub open spec fn opposes_request(position: Position, content: Seq<char>) -> bool {
    &&& position.stance == Stance::Oppose
    &&& (contains_text(ascii_lower(content), ascii_lower(position.subject@)) || (
    mentions_destruction(content) && mentions_destruction(position.subject@)))
}

fn destructive(lowered: &Vec<char>) -> (r: bool)
    ensures
        r == (contains_text(lowered@, "delet"@) || contains_text(lowered@, "remov"@)
            || contains_text(lowered@, "destroy"@) || contains_text(lowered@, "overwrit"@)),
{
    has_substring(lowered, &chars_of("delet")) || has_substring(lowered, &chars_of("remov"))
        || has_substring(lowered, &chars_of("destroy")) || has_substring(
        lowered,
        &chars_of("overwrit"),
    )
}

/// The first of HEKATE's positions in the context that opposes the
/// observed request.
pub fn opposing_position(context: &ThoughtContext) -> (r: Option<&Position>)
    ensures
        match r {
            Some(position) => exists|i: int|
                0 <= i < context.positions@.len() && context.positions@[i] == *position
                    && opposes_request(*position, context.observation.content@) && forall|j: int|
                    0 <= j < i ==> !opposes_request(
                        #[trigger] context.positions@[j],
                        context.observation.content@,
                    ),
            None => forall|i: int|
                0 <= i < context.positions@.len() ==> !opposes_request(
                    #[trigger] context.positions@[i],
                    context.observation.content@,
                ),
        },
{
    let content = ascii_lowercase(&chars_of(context.observation.content.as_str()));
    let destructive_request = destructive(&content);
    let mut i: usize = 0;
    while i < context.positions.len()
        invariant
            i <= context.positions@.len(),
            content@ == ascii_lower(context.observation.content@),
            destructive_request == mentions_destruction(context.observation.content@),
            forall|j: int|
                0 <= j < i ==> !opposes_request(
                    #[trigger] context.positions@[j],
                    context.observation.content@,
                ),
        decreases context.positions@.len() - i,
    {
        let position = &context.positions[i];
        if position.stance == Stance::Oppose {
            let subject = ascii_lowercase(&chars_of(position.subject.as_str()));
            let destructive_subject = destructive(&subject);
            if has_substring(&content, &subject) || (destructive_request && destructive_subject) {
                return Some(position);
            }
        }
        i = i + 1;
    }
    None
}

} // verus!
