//! Stale instances: copies of the application that still run an executable which an update has
//! replaced, or which is installed elsewhere. They are ended before the application starts. An
//! instance of the very same executable is left alone.

use vstd::prelude::*;

use crate::names::{file_name_of, find_file_name, path_equal, same_path};
use crate::platform::Platform;
use crate::scan::{drop_suffixes, ends_with, starts_with, strip_suffixes};
use crate::text::{chars_of, parse_u32, parsed, Class};

verus! {

/// An entry of the list of processes.
pub struct Process {
    /// Its name there, which is a number where the entry is a process.
    pub name: String,
    /// The executable that it runs, where that could be read; one that has been replaced is
    /// marked as deleted.
    pub exe: Option<String>,
}

/// Whether an executable is marked as deleted.
pub open spec fn is_replaced(exe: Seq<char>) -> bool {
    " (deleted)"@.is_suffix_of(exe)
}

/// An executable without the mark.
pub open spec fn real_path(exe: Seq<char>) -> Seq<char> {
    strip_suffixes(exe, " (deleted)"@)
}

/// Whether an executable is one of this application.
pub open spec fn is_ours(exe: Seq<char>) -> bool {
    match file_name_of(real_path(exe), Class::Except('/')) {
        Some(file) => "discord-rec"@.is_prefix_of(file),
        None => false,
    }
}

/// Whether a process may run the very executable at `current`: it has not been replaced, and is
/// not known to be another one.
pub open spec fn same_binary(exe: Seq<char>, current: Option<Seq<char>>) -> bool {
    &&& !is_replaced(exe)
    &&& current matches Some(c) ==> path_equal(c, real_path(exe))
}

/// The number of the process to be ended, where the entry is one: another process than `me`, of
/// this application, but not of the executable at `current`. Where `current` is not known, only
/// an executable that has been replaced is surely another one.
pub open spec fn stale(me: u32, current: Option<Seq<char>>, process: Process) -> Option<i32> {
    match (parsed(process.name@, u32::MAX as nat), process.exe) {
        (Some(pid), Some(exe)) => if pid != me && is_ours(exe@) && !same_binary(exe@, current)
            && pid <= i32::MAX {
            Some(pid as i32)
        } else {
            None
        },
        _ => None,
    }
}

/// The numbers of the processes to be ended, in order.
pub open spec fn stale_all(
    me: u32,
    current: Option<Seq<char>>,
    processes: Seq<Process>,
) -> Seq<i32>
    decreases processes.len(),
{
    if processes.len() == 0 {
        seq![]
    } else {
        match stale(me, current, processes.last()) {
            Some(pid) => stale_all(me, current, processes.drop_last()).push(pid),
            None => stale_all(me, current, processes.drop_last()),
        }
    }
}

fn check_process(me: u32, current: Option<&[char]>, process: &Process) -> (r: Option<i32>)
    ensures
        r == stale(
            me,
            match current {
                Some(c) => Some(c@),
                None => None,
            },
            *process,
        ),
{
    let pid: u32 = match parse_u32(chars_of(process.name.as_str()).as_slice()) {
        Some(pid) => pid,
        None => {
            return None;
        },
    };
    if pid == me {
        return None;
    }
    let exe = match &process.exe {
        Some(exe) => chars_of(exe.as_str()),
        None => {
            return None;
        },
    };
    let mark = chars_of(" (deleted)");
    proof {
        reveal_strlit(" (deleted)");
    }
    let replaced = ends_with(exe.as_slice(), mark.as_slice());
    let path = drop_suffixes(exe.as_slice(), mark.as_slice());
    let ours = match find_file_name(path, Class::Except('/')) {
        Some((from, to)) => starts_with(
            vstd::slice::slice_subrange(path, from, to),
            chars_of("discord-rec").as_slice(),
        ),
        None => false,
    };
    if !ours {
        return None;
    }
    let same = !replaced && match current {
        Some(c) => same_path(c, path),
        None => true,
    };
    if same || pid > i32::MAX as u32 {
        None
    } else {
        Some(pid as i32)
    }
}

/// Chooses the processes to be ended before the application starts. Only on Linux: elsewhere the
/// installer sees to it.
pub fn terminate_stale_instances(
    platform: Platform,
    me: u32,
    current: Option<&str>,
    processes: &[Process],
) -> (victims: Vec<i32>)
    ensures
        victims@ == if platform == Platform::Linux {
            stale_all(
                me,
                match current {
                    Some(c) => Some(c@),
                    None => None,
                },
                processes@,
            )
        } else {
            seq![]
        },
{
    let mut victims: Vec<i32> = Vec::new();
    match platform {
        Platform::Linux => {},
        _ => {
            return victims;
        },
    }
    let chars: Option<Vec<char>> = match current {
        Some(c) => Some(chars_of(c)),
        None => None,
    };
    let slice: Option<&[char]> = match &chars {
        Some(c) => Some(c.as_slice()),
        None => None,
    };
    let ghost own = match current {
        Some(c) => Some(c@),
        None => None,
    };
    let mut i: usize = 0;
    assert(victims@ =~= stale_all(me, own, processes@.take(0)));
    while i < processes.len()
        invariant
            i <= processes@.len(),
            own == match slice {
                Some(c) => Some(c@),
                None => None,
            },
            victims@ == stale_all(me, own, processes@.take(i as int)),
        decreases processes@.len() - i,
    {
        assert(processes@.take(i + 1).drop_last() =~= processes@.take(i as int));
        if let Some(pid) = check_process(me, slice, &processes[i]) {
            victims.push(pid);
        }
        i += 1;
    }
    assert(processes@.take(i as int) =~= processes@);
    victims
}

/// The application never ends itself.
pub proof fn law_never_itself(me: u32, current: Option<Seq<char>>, process: Process)
    ensures
        stale(me, current, process) matches Some(pid) ==> pid != me,
{
}

/// An instance of the very same executable is never ended.
pub proof fn law_same_binary_is_spared(me: u32, current: Option<Seq<char>>, process: Process)
    requires
        process.exe matches Some(exe) && same_binary(exe@, current),
    ensures
        stale(me, current, process) is None,
{
}

/// Where the own executable is not known, no instance is ended unless it has been replaced.
pub proof fn law_unknown_spares_the_unreplaced(me: u32, process: Process)
    ensures
        stale(me, None, process) is Some ==> (process.exe matches Some(exe) && is_replaced(exe@)),
{
}

/// Only processes of this application are ended.
pub proof fn law_only_ours(me: u32, current: Option<Seq<char>>, process: Process)
    ensures
        stale(me, current, process) is Some ==> (process.exe matches Some(exe) && is_ours(exe@)),
{
}

/// An instance whose executable has been replaced is ended, wherever it is.
pub proof fn law_replaced_is_ended(me: u32, current: Option<Seq<char>>, process: Process, pid: nat)
    requires
        parsed(process.name@, u32::MAX as nat) == Some(pid),
        pid != me,
        pid <= i32::MAX,
        process.exe matches Some(exe) && is_ours(exe@) && is_replaced(exe@),
    ensures
        stale(me, current, process) == Some(pid as i32),
{
}

/// The processes that are still alive, in order.
pub open spec fn survivors(victims: Seq<i32>, alive: Seq<bool>) -> Seq<i32>
    decreases victims.len(),
{
    if victims.len() == 0 {
        seq![]
    } else if alive[victims.len() - 1] {
        survivors(victims.drop_last(), alive).push(victims.last())
    } else {
        survivors(victims.drop_last(), alive)
    }
}

/// What is to be done about processes that were asked to end.
pub enum Reap {
    /// All have ended.
    Done,
    /// They have some time left.
    Wait,
    /// These are to be killed.
    Kill(Vec<i32>),
}

/// Decides what is to be done about processes that were asked to end, given which are alive: they
/// are given time to finish a recording, and those that are left are killed.
pub fn reap(victims: &[i32], alive: &[bool], late: bool) -> (r: Reap)
    requires
        victims@.len() == alive@.len(),
    ensures
        match r {
            Reap::Done => survivors(victims@, alive@).len() == 0,
            Reap::Wait => survivors(victims@, alive@).len() > 0 && !late,
            Reap::Kill(list) => late && list@.len() > 0 && list@ == survivors(victims@, alive@),
        },
{
    let mut left: Vec<i32> = Vec::new();
    let mut i: usize = 0;
    assert(left@ =~= survivors(victims@.take(0), alive@));
    while i < victims.len()
        invariant
            i <= victims@.len(),
            victims@.len() == alive@.len(),
            left@ == survivors(victims@.take(i as int), alive@),
        decreases victims@.len() - i,
    {
        assert(victims@.take(i + 1).drop_last() =~= victims@.take(i as int));
        if alive[i] {
            left.push(victims[i]);
        }
        i += 1;
    }
    assert(victims@.take(i as int) =~= victims@);
    if left.len() == 0 {
        Reap::Done
    } else if late {
        Reap::Kill(left)
    } else {
        Reap::Wait
    }
}

/// An entry is ended exactly where it is another process of the application that does not run the
/// executable that is starting: its name is a number that a process can have, and its executable,
/// once the mark of a replaced one is taken off, is called `discord-rec…`. An executable with the
/// mark is never the one that is starting; without it, it is where the paths are the same, or may
/// be where the own path is not known.
pub proof fn law_ended_exactly_when(me: u32, current: Option<Seq<char>>, process: Process)
    ensures
        stale(me, current, process) matches Some(pid) ==> parsed(
            process.name@,
            u32::MAX as nat,
        ) == Some(pid as nat),
        stale(me, current, process) is Some <==> {
            &&& parsed(process.name@, u32::MAX as nat) matches Some(pid) && pid != me && pid
                <= 0x7fff_ffff
            &&& process.exe matches Some(exe) && {
                &&& file_name_of(strip_suffixes(exe@, " (deleted)"@), Class::Except('/'))
                    matches Some(file) && "discord-rec"@.is_prefix_of(file)
                &&& {
                    ||| " (deleted)"@.is_suffix_of(exe@)
                    ||| current matches Some(own) && !path_equal(own, exe@)
                }
            }
        },
{
    if let Some(exe) = process.exe {
        if !" (deleted)"@.is_suffix_of(exe@) {
            assert(strip_suffixes(exe@, " (deleted)"@) == exe@);
        }
    }
}

/// Every entry is looked at, in order: what is chosen from two lists one after the other is what
/// is chosen from each.
pub proof fn law_every_entry_is_looked_at(
    me: u32,
    current: Option<Seq<char>>,
    a: Seq<Process>,
    b: Seq<Process>,
)
    ensures
        stale_all(me, current, a + b) == stale_all(me, current, a) + stale_all(me, current, b),
    decreases b.len(),
{
    if b.len() == 0 {
        assert(a + b =~= a);
        assert(stale_all(me, current, a) + stale_all(me, current, b) =~= stale_all(
            me,
            current,
            a,
        ));
    } else {
        law_every_entry_is_looked_at(me, current, a, b.drop_last());
        assert((a + b).drop_last() =~= a + b.drop_last());
        assert(stale_all(me, current, a + b) =~= stale_all(me, current, a) + stale_all(
            me,
            current,
            b,
        ));
    }
}

/// A single entry is chosen where it is to be ended.
pub proof fn law_single_entry(me: u32, current: Option<Seq<char>>, process: Process)
    ensures
        stale_all(me, current, seq![process]) == match stale(me, current, process) {
            Some(pid) => seq![pid],
            None => seq![],
        },
{
    reveal_with_fuel(stale_all, 2);
    assert(seq![process].drop_last() =~= seq![]);
    assert(stale_all(me, current, seq![process]) =~= match stale(me, current, process) {
        Some(pid) => seq![pid],
        None => seq![],
    });
}

/// Left are the processes that are alive, all of them and no others.
pub proof fn law_survivors(victims: Seq<i32>, alive: Seq<bool>, pid: i32)
    requires
        victims.len() <= alive.len(),
    ensures
        survivors(victims, alive).contains(pid) <==> exists|i: int|
            0 <= i < victims.len() && alive[i] && #[trigger] victims[i] == pid,
    decreases victims.len(),
{
    let left = survivors(victims, alive);
    if victims.len() > 0 {
        let before = victims.drop_last();
        let left_before = survivors(before, alive);
        law_survivors(before, alive, pid);
        if left.contains(pid) {
            let k = choose|k: int| 0 <= k < left.len() && left[k] == pid;
            if k < left_before.len() {
                assert(left_before[k] == pid);
                let i = choose|i: int|
                    0 <= i < before.len() && alive[i] && #[trigger] before[i] == pid;
                assert(victims[i] == pid);
            } else {
                assert(victims[victims.len() - 1] == pid);
            }
        }
        if exists|i: int| 0 <= i < victims.len() && alive[i] && #[trigger] victims[i] == pid {
            let i = choose|i: int|
                0 <= i < victims.len() && alive[i] && #[trigger] victims[i] == pid;
            if i < before.len() {
                assert(before[i] == pid);
                let k = choose|k: int| 0 <= k < left_before.len() && left_before[k] == pid;
                assert(left[k] == pid);
            } else {
                assert(left[left.len() - 1] == pid);
            }
        }
    }
}

} // verus!
