//! Labels and members of enumerations against a plan.
use crate::change_event::compatibility::plan::ColumnConversionPlan;
use crate::change_event::compatibility::values::refusal::{
    refusal_of, refuse, Refusal, RefusalText,
};
use crate::change_event::model::LogicalValue;
use crate::change_event::validate::{is_member_before, member_before};
use crate::json::{json_text_list, read_text_list};
use crate::text::{concat, same, texts};
use vstd::prelude::*;

verus! {

/// The members that a plan names.
pub open spec fn named_members(plan: ColumnConversionPlan, name: Seq<char>) -> Result<
    Seq<Seq<char>>,
    RefusalText,
> {
    let encoded = match plan.target.parameters.value_of(name) {
        Some(value) => Some(value),
        None => plan.parameters.value_of(name),
    };
    match encoded {
        None => Err(
            (
                "target_capability.enum_set_mapping_missing"@,
                "the saved plan is missing "@ + name,
            ),
        ),
        Some(text) => match json_text_list(text) {
            None => Err(
                (
                    "target_capability.enum_set_mapping_invalid"@,
                    "the saved plan contains invalid "@ + name,
                ),
            ),
            Some(members) => Ok(members),
        },
    }
}

pub(crate) fn plan_members(plan: &ColumnConversionPlan, name: &str) -> (result: Result<
    Vec<String>,
    Refusal,
>)
    ensures
        match result {
            Ok(members) => named_members(*plan, name@) == Ok::<Seq<Seq<char>>, RefusalText>(
                texts(members@),
            ),
            Err(refusal) => named_members(*plan, name@) == Err::<Seq<Seq<char>>, RefusalText>(
                (refusal.code@, refusal.message@),
            ),
        },
{
    let encoded = match plan.target.parameters.get(name) {
        Some(value) => Some(value),
        None => plan.parameters.get(name),
    };
    match encoded {
        None => {
            let message = concat("the saved plan is missing ", name);
            Err(refuse("target_capability.enum_set_mapping_missing", message.as_str()))
        },
        Some(text) => match read_text_list(text) {
            None => {
                let message = concat("the saved plan contains invalid ", name);
                Err(refuse("target_capability.enum_set_mapping_invalid", message.as_str()))
            },
            Some(members) => Ok(members),
        },
    }
}

/// Whether a text stands in a list.
pub(crate) fn is_listed(list: &Vec<String>, wanted: &str) -> (result: bool)
    ensures
        result == texts(list@).contains(wanted@),
{
    let mut i: usize = 0;
    while i < list.len()
        invariant
            i <= list@.len(),
            forall|k: int| 0 <= k < i ==> (#[trigger] texts(list@)[k]) != wanted@,
        decreases list@.len() - i,
    {
        if same(list[i].as_str(), wanted) {
            assert(texts(list@)[i as int] == wanted@);
            return true;
        }
        i += 1;
    }
    false
}

/// Why the target's members refuse the members from `from` on.
pub open spec fn set_refusal(members: Seq<String>, targets: Seq<Seq<char>>, from: int) -> Option<
    RefusalText,
>
    decreases members.len() - from,
{
    if from < 0 || from >= members.len() {
        None
    } else if member_before(members, from, members[from]@) {
        Some(
            (
                "target_capability.set_duplicate_member"@,
                "the SET value contains a duplicate member"@,
            ),
        )
    } else if !targets.contains(members[from]@) {
        Some(
            (
                "target_capability.set_unknown_member"@,
                "the SET value contains a member not declared by the target definition"@,
            ),
        )
    } else {
        set_refusal(members, targets, from + 1)
    }
}

/// Why a plan refuses a value as a label or a set of members.
pub open spec fn enum_set_refusal(plan: ColumnConversionPlan, value: LogicalValue) -> Option<
    RefusalText,
> {
    match named_members(plan, "target_members"@) {
        Err(refusal) => Some(refusal),
        Ok(targets) => match value {
            LogicalValue::Enum { label } => if targets.contains(label@) {
                None
            } else {
                Some(
                    (
                        "target_capability.enum_unknown_label"@,
                        "the ENUM label is not declared by the target definition"@,
                    ),
                )
            },
            LogicalValue::SetValue { members } => set_refusal(members@, targets, 0),
            _ => Some(
                (
                    "target_capability.enum_set_type_mismatch"@,
                    "the ENUM/SET conversion plan received another LogicalValue family"@,
                ),
            ),
        },
    }
}

pub(crate) fn check_set(members: &Vec<String>, targets: &Vec<String>) -> (result: Result<
    (),
    Refusal,
>)
    ensures
        refusal_of(result) == set_refusal(members@, texts(targets@), 0),
{
    let mut i: usize = 0;
    while i < members.len()
        invariant
            i <= members@.len(),
            set_refusal(members@, texts(targets@), 0) == set_refusal(
                members@,
                texts(targets@),
                i as int,
            ),
        decreases members@.len() - i,
    {
        if is_member_before(members, i, members[i].as_str()) {
            return Err(
                refuse(
                    "target_capability.set_duplicate_member",
                    "the SET value contains a duplicate member",
                ),
            );
        }
        if !is_listed(targets, members[i].as_str()) {
            return Err(
                refuse(
                    "target_capability.set_unknown_member",
                    "the SET value contains a member not declared by the target definition",
                ),
            );
        }
        i += 1;
    }
    Ok(())
}

pub(crate) fn validate_enum_set_plan_value(
    plan: &ColumnConversionPlan,
    value: &LogicalValue,
) -> (result: Result<(), Refusal>)
    ensures
        refusal_of(result) == enum_set_refusal(*plan, *value),
{
    let targets = match plan_members(plan, "target_members") {
        Ok(targets) => targets,
        Err(refusal) => {
            return Err(refusal);
        },
    };
    match value {
        LogicalValue::Enum { label } => {
            if is_listed(&targets, label.as_str()) {
                Ok(())
            } else {
                Err(
                    refuse(
                        "target_capability.enum_unknown_label",
                        "the ENUM label is not declared by the target definition",
                    ),
                )
            }
        },
        LogicalValue::SetValue { members } => check_set(members, &targets),
        _ => Err(
            refuse(
                "target_capability.enum_set_type_mismatch",
                "the ENUM/SET conversion plan received another LogicalValue family",
            ),
        ),
    }
}

/// The targets that are members, in the order of the targets.
pub open spec fn in_target_order(targets: Seq<Seq<char>>, members: Seq<Seq<char>>) -> Seq<Seq<char>>
    decreases targets.len(),
{
    if targets.len() == 0 {
        Seq::empty()
    } else {
        let earlier = in_target_order(targets.drop_last(), members);
        if members.contains(targets.last()) {
            earlier.push(targets.last())
        } else {
            earlier
        }
    }
}

pub(crate) fn order_members(targets: &Vec<String>, members: &Vec<String>) -> (result: Vec<String>)
    ensures
        texts(result@) == in_target_order(texts(targets@), texts(members@)),
{
    let ghost all = texts(targets@);
    let mut result: Vec<String> = Vec::new();
    let mut i: usize = 0;
    assert(texts(result@) =~= in_target_order(all.take(0), texts(members@)));
    while i < targets.len()
        invariant
            i <= targets@.len(),
            all == texts(targets@),
            texts(result@) == in_target_order(all.take(i as int), texts(members@)),
        decreases targets@.len() - i,
    {
        assert(all.take(i + 1).drop_last() =~= all.take(i as int));
        assert(all.take(i + 1).last() == targets@[i as int]@);
        if is_listed(members, targets[i].as_str()) {
            let ghost before = texts(result@);
            let copy = targets[i].clone();
            result.push(copy);
            assert(texts(result@) =~= before.push(copy@));
        }
        i += 1;
    }
    assert(all.take(i as int) =~= all);
    result
}

/// Putting the members in the order of the target keeps the set: where every
/// member is a target, a text is a member after it exactly where it was one
/// before.
pub proof fn law_target_order_keeps_the_set(
    targets: Seq<Seq<char>>,
    members: Seq<Seq<char>>,
    text: Seq<char>,
)
    requires
        forall|i: int| 0 <= i < members.len() ==> targets.contains(#[trigger] members[i]),
    ensures
        in_target_order(targets, members).contains(text) <==> members.contains(text),
{
    lemma_in_target_order(targets, members, text);
    if members.contains(text) {
        let i = choose|i: int| 0 <= i < members.len() && members[i] == text;
        assert(targets.contains(members[i]));
    }
}

proof fn lemma_in_target_order(
    targets: Seq<Seq<char>>,
    members: Seq<Seq<char>>,
    text: Seq<char>,
)
    ensures
        in_target_order(targets, members).contains(text) <==> members.contains(text)
            && targets.contains(text),
    decreases targets.len(),
{
    if targets.len() > 0 {
        let rest = targets.drop_last();
        let earlier = in_target_order(rest, members);
        lemma_in_target_order(rest, members, text);
        assert(targets =~= rest.push(targets.last()));
        assert(targets.contains(text) <==> rest.contains(text) || text == targets.last()) by {
            if targets.contains(text) {
                let i = choose|i: int| 0 <= i < targets.len() && targets[i] == text;
                if i < rest.len() {
                    assert(rest[i] == text);
                }
            }
            if rest.contains(text) {
                let i = choose|i: int| 0 <= i < rest.len() && rest[i] == text;
                assert(targets[i] == text);
            }
            if text == targets.last() {
                assert(targets[targets.len() - 1] == text);
            }
        }
        let longer = earlier.push(targets.last());
        assert(longer.contains(text) <==> earlier.contains(text) || text == targets.last()) by {
            if longer.contains(text) {
                let i = choose|i: int| 0 <= i < longer.len() && longer[i] == text;
                if i < earlier.len() {
                    assert(earlier[i] == text);
                }
            }
            if earlier.contains(text) {
                let i = choose|i: int| 0 <= i < earlier.len() && earlier[i] == text;
                assert(longer[i] == text);
            }
            if text == targets.last() {
                assert(longer[earlier.len() as int] == text);
            }
        }
    }
}

} // verus!
