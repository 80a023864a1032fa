//! Getting the kernel driver loaded when the daemon starts.
use crate::scan::{has_prefix, law_first_line, lines, lines_of, starts_with, text_views};
use crate::text::chars_of;
use vstd::prelude::*;

verus! {

/// Whether a list of loaded modules, one per line, has a line that starts with
/// this name.
pub open spec fn listed(modules: Seq<char>, name: Seq<char>) -> bool {
    exists|i: int|
        0 <= i < lines_of(modules).len() && has_prefix(#[trigger] lines_of(modules)[i], name)
}

/// Whether a module is loaded, given the list of loaded modules. Without a
/// list no module counts as loaded.
pub fn module_loaded(modules: Option<&str>, name: &str) -> (r: bool)
    ensures
        r == match modules {
            Some(text) => listed(text@, name@),
            None => false,
        },
{
    let text = match modules {
        Some(text) => chars_of(text),
        None => {
            return false;
        },
    };
    let prefix = chars_of(name);
    let all = lines(text.as_slice());
    let ghost views = lines_of(text@);
    let mut i: usize = 0;
    while i < all.len()
        invariant
            i <= all.len(),
            text_views(all@) == views,
            views == lines_of(text@),
            modules matches Some(t) && t@ == text@,
            prefix@ == name@,
            forall|k: int| 0 <= k < i ==> !has_prefix(#[trigger] views[k], name@),
        decreases all.len() - i,
    {
        if starts_with(all[i].as_slice(), prefix.as_slice()) {
            assert(has_prefix(views[i as int], name@));
            return true;
        }
        assert(views[i as int] == all@[i as int]@);
        i = i + 1;
    }
    false
}

/// A step on the way to a loaded driver.
#[derive(Debug, Clone, Copy, PartialEq, Eq, Structural)]
pub enum LoadStep {
    /// Is an old driver loaded?
    LookForOld,
    /// Unload the old driver.
    Unload,
    /// Load a driver that is installed on the system.
    LoadInstalled,
    /// Make a directory for the sources that come with the daemon.
    MakeDirectory,
    /// Unpack the sources.
    Unpack,
    /// Build the driver.
    Build,
    /// Look for the built driver.
    LookForBuilt,
    /// Load the built driver.
    LoadBuilt,
    /// The driver is loaded, or it is not.
    Done(bool),
}

/// What comes after a step that went well, or did not.
pub open spec fn step_after(step: LoadStep, ok: bool) -> LoadStep {
    match step {
        LoadStep::LookForOld => if ok {
            LoadStep::Unload
        } else {
            LoadStep::LoadInstalled
        },
        LoadStep::Unload => LoadStep::LoadInstalled,
        LoadStep::LoadInstalled => if ok {
            LoadStep::Done(true)
        } else {
            LoadStep::MakeDirectory
        },
        LoadStep::MakeDirectory => if ok {
            LoadStep::Unpack
        } else {
            LoadStep::Done(false)
        },
        LoadStep::Unpack => if ok {
            LoadStep::Build
        } else {
            LoadStep::Done(false)
        },
        LoadStep::Build => if ok {
            LoadStep::LookForBuilt
        } else {
            LoadStep::Done(false)
        },
        LoadStep::LookForBuilt => if ok {
            LoadStep::LoadBuilt
        } else {
            LoadStep::Done(false)
        },
        LoadStep::LoadBuilt => LoadStep::Done(ok),
        LoadStep::Done(loaded) => LoadStep::Done(loaded),
    }
}

impl LoadStep {
    /// The first step.
    pub fn first() -> (r: LoadStep)
        ensures
            r == LoadStep::LookForOld,
    {
        LoadStep::LookForOld
    }

    /// The step after this one, which went well or did not.
    pub fn next(self, ok: bool) -> (r: LoadStep)
        ensures
            r == step_after(self, ok),
    {
        match self {
            LoadStep::LookForOld => if ok {
                LoadStep::Unload
            } else {
                LoadStep::LoadInstalled
            },
            LoadStep::Unload => LoadStep::LoadInstalled,
            LoadStep::LoadInstalled => if ok {
                LoadStep::Done(true)
            } else {
                LoadStep::MakeDirectory
            },
            LoadStep::MakeDirectory => if ok {
                LoadStep::Unpack
            } else {
                LoadStep::Done(false)
            },
            LoadStep::Unpack => if ok {
                LoadStep::Build
            } else {
                LoadStep::Done(false)
            },
            LoadStep::Build => if ok {
                LoadStep::LookForBuilt
            } else {
                LoadStep::Done(false)
            },
            LoadStep::LookForBuilt => if ok {
                LoadStep::LoadBuilt
            } else {
                LoadStep::Done(false)
            },
            LoadStep::LoadBuilt => LoadStep::Done(ok),
            LoadStep::Done(loaded) => LoadStep::Done(loaded),
        }
    }
}

/// Where so many steps lead, when each step goes as `goes` says.
pub open spec fn steps_lead(step: LoadStep, goes: spec_fn(LoadStep) -> bool, n: nat) -> LoadStep
    decreases n,
{
    if n == 0 {
        step
    } else {
        steps_lead(step_after(step, goes(step)), goes, (n - 1) as nat)
    }
}

/// Eight steps always suffice, and the driver ends up loaded exactly if an
/// installed one could be loaded or every step with the sources went well.
pub proof fn law_loading_ends(goes: spec_fn(LoadStep) -> bool)
    ensures
        steps_lead(LoadStep::LookForOld, goes, 8) == LoadStep::Done(
            goes(LoadStep::LoadInstalled) || (goes(LoadStep::MakeDirectory) && goes(
                LoadStep::Unpack,
            ) && goes(LoadStep::Build) && goes(LoadStep::LookForBuilt) && goes(
                LoadStep::LoadBuilt,
            )),
        ),
{
    reveal_with_fuel(steps_lead, 10);
}

/// An old driver is unloaded before another one is loaded, whether that works
/// or not; and nothing is built where an installed driver can be loaded.
pub proof fn law_order_of_loading(ok: bool)
    ensures
        step_after(LoadStep::LookForOld, true) == LoadStep::Unload,
        step_after(LoadStep::LookForOld, false) == LoadStep::LoadInstalled,
        step_after(LoadStep::Unload, ok) == LoadStep::LoadInstalled,
        step_after(LoadStep::LoadInstalled, true) == LoadStep::Done(true),
        step_after(LoadStep::LoadInstalled, false) == LoadStep::MakeDirectory,
        step_after(LoadStep::MakeDirectory, true) == LoadStep::Unpack,
        step_after(LoadStep::Unpack, true) == LoadStep::Build,
        step_after(LoadStep::Build, true) == LoadStep::LookForBuilt,
        step_after(LoadStep::LookForBuilt, true) == LoadStep::LoadBuilt,
        step_after(LoadStep::LoadBuilt, ok) == LoadStep::Done(ok),
        forall|step: LoadStep|
            step == LoadStep::MakeDirectory || step == LoadStep::Unpack || step == LoadStep::Build
                || step == LoadStep::LookForBuilt ==> #[trigger] step_after(step, false)
                == LoadStep::Done(false),
        forall|loaded: bool| #[trigger]
            step_after(LoadStep::Done(loaded), ok) == LoadStep::Done(loaded),
{
}

/// A module is loaded if a line of the list starts with its name, and a list
/// without lines has none.
pub proof fn law_listed_modules(line: Seq<char>, rest: Seq<char>, name: Seq<char>)
    requires
        forall|k: int| 0 <= k < line.len() ==> line[k] != '\n' && line[k] != '\r',
    ensures
        listed(line + seq!['\n'] + rest, name) <==> has_prefix(line, name) || listed(rest, name),
        !listed(Seq::empty(), name),
{
    law_first_line(line, rest);
    let all = line + seq!['\n'] + rest;
    let front = lines_of(all);
    let tail = lines_of(rest);
    assert(front == seq![line] + tail);
    if listed(all, name) {
        let i = choose|i: int| 0 <= i < front.len() && has_prefix(#[trigger] front[i], name);
        if i > 0 {
            assert(front[i] == tail[i - 1]);
        }
    }
    if listed(rest, name) {
        let i = choose|i: int| 0 <= i < tail.len() && has_prefix(#[trigger] tail[i], name);
        assert(front[i + 1] == tail[i]);
    }
    if has_prefix(line, name) {
        assert(front[0] == line);
    }
}

} // verus!
