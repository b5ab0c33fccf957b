//! What the contracts speak of is what the values hold: nothing is left out or added.

use crate::entry::FileEntry;
use crate::filesystem::{Outcome, OutcomeOf, OutcomeView};
use crate::host::{Metadata, ModifiedOf};
use crate::listing::entry_views;
use crate::process::{ProcessConfig, SpawnPlan};
use crate::reply::Reply;
use crate::running::EndEvent;
use crate::text::texts;
use crate::watcher::{change_views, raw_views, Change, RawChange};
use vstd::prelude::*;

verus! {

/// A list of texts stands for all of them, in their order.
pub proof fn law_texts_are_all_there(list: Seq<String>)
    ensures
        texts(list).len() == list.len(),
        forall|i: int| 0 <= i < list.len() ==> #[trigger] texts(list)[i] == list[i]@,
{
}

/// A command stands for its program, all of its arguments, its variables and its working directory.
pub proof fn law_commands_are_all_there(config: ProcessConfig)
    ensures
        config@.cmd == config.cmd@,
        config@.args.len() == config.args@.len(),
        forall|i: int| 0 <= i < config.args@.len() ==> #[trigger] config@.args[i] == config.args@[i]@,
        config@.envs == config.envs@,
        config.cwd is None <==> config@.cwd is None,
        config.cwd matches Some(cwd) ==> config@.cwd == Some(cwd@),
{
}

/// A plan stands for its program, all of its arguments, its variables, its working directory and its user.
pub proof fn law_plans_are_all_there(plan: SpawnPlan)
    ensures
        plan@.program == plan.program@,
        plan@.args.len() == plan.args@.len(),
        forall|i: int| 0 <= i < plan.args@.len() ==> #[trigger] plan@.args[i] == plan.args@[i]@,
        plan@.envs == plan.envs@,
        plan.cwd is None <==> plan@.cwd is None,
        plan.cwd matches Some(cwd) ==> plan@.cwd == Some(cwd@),
        plan.run_as is None <==> plan@.run_as is None,
        plan.run_as matches Some(user) ==> plan@.run_as->0.username == user.username@ && plan@.run_as->0.account
            == user.account,
{
}

/// A reply stands for its status, its headers and all of its body.
pub proof fn law_replies_are_all_there(reply: Reply)
    ensures
        reply@.status == reply.status,
        reply@.content_type == reply.content_type@,
        reply@.body == reply.body@,
        reply.accept_ranges is None <==> reply@.accept_ranges is None,
        reply.accept_ranges matches Some(text) ==> reply@.accept_ranges == Some(text@),
        reply.last_modified is None <==> reply@.last_modified is None,
        reply.last_modified matches Some(text) ==> reply@.last_modified == Some(text@),
        reply.content_range is None <==> reply@.content_range is None,
        reply.content_range matches Some(text) ==> reply@.content_range == Some(text@),
{
}

/// What is known of a file stands for all of it.
pub proof fn law_metadata_are_all_there(metadata: Metadata)
    ensures
        metadata@.is_dir == metadata.is_dir,
        metadata@.mode == metadata.mode,
        metadata@.size == metadata.size,
        metadata@.uid == metadata.uid,
        metadata@.gid == metadata.gid,
        metadata.modified matches ModifiedOf::At { seconds, nanoseconds } ==> metadata@.modified == (ModifiedOf::<
            Seq<char>,
        >::At { seconds, nanoseconds }),
        metadata.modified matches ModifiedOf::Unknown(message) ==> metadata@.modified == ModifiedOf::<
            Seq<char>,
        >::Unknown(message@),
{
}

/// A description stands for all that it tells.
pub proof fn law_descriptions_are_all_there(entry: FileEntry)
    ensures
        entry@.name == entry.name@,
        entry@.file_type == entry.file_type@,
        entry@.path == entry.path@,
        entry@.size == entry.size@,
        entry@.mode == entry.mode,
        entry@.permissions == entry.permissions@,
        entry@.owner == entry.owner@,
        entry@.group == entry.group@,
        entry@.modified_time == entry.modified_time@,
{
}

/// A list of descriptions stands for all of them, in their order, also as the outcome of a request.
pub proof fn law_lists_are_all_there(entries: Seq<FileEntry>, outcome: Outcome)
    ensures
        entry_views(entries).len() == entries.len(),
        forall|i: int| 0 <= i < entries.len() ==> #[trigger] entry_views(entries)[i] == entries[i]@,
        outcome matches OutcomeOf::Entries { head, entries } ==> outcome@ == (OutcomeView::Entries {
            head: head@,
            entries: entry_views(entries@),
        }),
        outcome matches OutcomeOf::Entry { head, entry } ==> outcome@ == (OutcomeView::Entry {
            head: head@,
            entry: entry@,
        }),
        outcome matches OutcomeOf::Empty(reply) ==> outcome@ == OutcomeView::Empty(reply@),
{
}

/// A list of changes stands for all of them, in their order, as they are reported and as they are told.
pub proof fn law_changes_are_all_there(raw: Seq<RawChange>, told: Seq<Change>)
    ensures
        raw_views(raw).len() == raw.len(),
        forall|i: int| 0 <= i < raw.len() ==> (#[trigger] raw_views(raw)[i]).mask == raw[i].mask,
        forall|i: int|
            0 <= i < raw.len() ==> (raw[i].name matches Some(name) ==> (#[trigger] raw_views(raw)[i]).name == Some(
                name@,
            )),
        forall|i: int| 0 <= i < raw.len() ==> ((#[trigger] raw_views(raw)[i]).name is None <==> raw[i].name is None),
        change_views(told).len() == told.len(),
        forall|i: int|
            0 <= i < told.len() ==> (#[trigger] change_views(told)[i]).name == told[i].name@ && change_views(
                told,
            )[i].event_type == told[i].event_type@,
{
}

/// The account of an end stands for all that it tells.
pub proof fn law_ends_are_all_there(end: EndEvent)
    ensures
        end@.exit_code == end.exit_code,
        end@.exited == end.exited,
        end@.status == end.status@,
        end.error is None <==> end@.error is None,
        end.error matches Some(text) ==> end@.error == Some(text@),
        end@.termination.reason == end.termination.reason@,
        end@.termination.signal == end.termination.signal,
        end@.termination.core_dumped == end.termination.core_dumped,
        end.termination.signal_name is None <==> end@.termination.signal_name is None,
        end.termination.signal_name matches Some(name) ==> end@.termination.signal_name == Some(name@),
{
}

} // verus!
