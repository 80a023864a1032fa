//! Drivers that are known by name.
use crate::host::adapter_loader::adapter::{option_arguments, push_option_args};
use crate::host::adapter_loader::bundle::{join_path, under};
use crate::host::config::{option_views, string_views};
use crate::text::same_text;
use vstd::prelude::*;

verus! {

/// The drivers there are.
#[derive(Debug, Clone)]
pub struct DriverList {
    pub drivers: Vec<DriverInfo>,
}

/// One driver.
#[derive(Debug, Clone)]
pub struct DriverInfo {
    pub name: String,
    pub description: String,
    pub default_port: u16,
    /// Relative to the directory of the drivers.
    pub driver_path: String,
    /// Options with their default values.
    pub options: Vec<(String, String)>,
}

/// A failure of a driver.
#[derive(Debug)]
pub enum DriverError {
    UnknownDriver(String),
    Spawn(String),
    Io(String),
}

/// The mathematical content of a [`DriverInfo`].
#[verifier::ext_equal]
pub struct DriverView {
    pub name: Seq<char>,
    pub description: Seq<char>,
    pub default_port: u16,
    pub driver_path: Seq<char>,
    pub options: Seq<(Seq<char>, Seq<char>)>,
}

/// The mathematical content of a [`DriverError`].
pub enum DriverErrorView {
    UnknownDriver(Seq<char>),
    Spawn(Seq<char>),
    Io(Seq<char>),
}

impl View for DriverInfo {
    type V = DriverView;

    open spec fn view(&self) -> DriverView {
        DriverView {
            name: self.name@,
            description: self.description@,
            default_port: self.default_port,
            driver_path: self.driver_path@,
            options: option_views(self.options@),
        }
    }
}

impl View for DriverList {
    type V = Seq<DriverView>;

    open spec fn view(&self) -> Seq<DriverView> {
        Seq::new(self.drivers@.len(), |i: int| self.drivers@[i]@)
    }
}

impl View for DriverError {
    type V = DriverErrorView;

    open spec fn view(&self) -> DriverErrorView {
        match self {
            DriverError::UnknownDriver(name) => DriverErrorView::UnknownDriver(name@),
            DriverError::Spawn(text) => DriverErrorView::Spawn(text@),
            DriverError::Io(text) => DriverErrorView::Io(text@),
        }
    }
}

/// The text of a failure.
pub open spec fn driver_error_message(e: DriverErrorView) -> Seq<char> {
    match e {
        DriverErrorView::UnknownDriver(name) => "Unknown driver: "@ + name,
        DriverErrorView::Spawn(text) => "Failed to spawn uv run: "@ + text,
        DriverErrorView::Io(text) => "Driver I/O error: "@ + text,
    }
}

impl DriverError {
    /// The text shown to a person.
    pub fn message(&self) -> (r: String)
        ensures
            r@ == driver_error_message(self@),
    {
        match self {
            DriverError::UnknownDriver(name) => {
                let mut out = "Unknown driver: ".to_owned();
                out.push_str(name.as_str());
                out
            },
            DriverError::Spawn(text) => {
                let mut out = "Failed to spawn uv run: ".to_owned();
                out.push_str(text.as_str());
                out
            },
            DriverError::Io(text) => {
                let mut out = "Driver I/O error: ".to_owned();
                out.push_str(text.as_str());
                out
            },
        }
    }
}

/// The keyboard driver.
pub open spec fn keyboard_driver() -> DriverView {
    DriverView {
        name: "keyboard"@,
        description: "Terminal keyboard (raw /dev/tty, no permissions)"@,
        default_port: 8081,
        driver_path: "keyboard.py"@,
        options: Seq::empty(),
    }
}

/// The drivers there are: the keyboard.
pub fn get_drivers() -> (r: DriverList)
    ensures
        r@ == seq![keyboard_driver()],
{
    let mut drivers: Vec<DriverInfo> = Vec::new();
    let keyboard = DriverInfo {
        name: "keyboard".to_owned(),
        description: "Terminal keyboard (raw /dev/tty, no permissions)".to_owned(),
        default_port: 8081,
        driver_path: "keyboard.py".to_owned(),
        options: Vec::new(),
    };
    assert(keyboard@ =~= keyboard_driver());
    drivers.push(keyboard);
    let r = DriverList { drivers };
    assert(r@ =~= seq![keyboard_driver()]);
    r
}

/// The position of the first driver of this name from `i` on, or the end.
pub open spec fn driver_position(drivers: Seq<DriverView>, name: Seq<char>, i: int) -> int
    decreases drivers.len() - i,
{
    if 0 <= i < drivers.len() && drivers[i].name != name {
        driver_position(drivers, name, i + 1)
    } else {
        i
    }
}

impl DriverList {
    /// The first driver of this name.
    pub fn query_driver(&self, name: &str) -> (r: Option<&DriverInfo>)
        ensures
            match r {
                Some(info) => driver_position(self@, name@, 0) < self@.len() && info@
                    == self@[driver_position(self@, name@, 0)],
                None => driver_position(self@, name@, 0) == self@.len(),
            },
    {
        let mut i: usize = 0;
        while i < self.drivers.len()
            invariant
                i <= self.drivers@.len(),
                self@.len() == self.drivers@.len(),
                driver_position(self@, name@, i as int) == driver_position(self@, name@, 0),
            decreases self.drivers.len() - i,
        {
            if same_text(self.drivers[i].name.as_str(), name) {
                return Some(&self.drivers[i]);
            }
            i = i + 1;
        }
        None
    }
}

/// The arguments that make `uv` run a driver, or the failure for a name that
/// no driver has.
pub fn driver_args(
    list: &DriverList,
    name: &str,
    drivers_dir: &str,
    options: &[(String, String)],
) -> (r: Result<Vec<String>, DriverError>)
    ensures
        match r {
            Ok(args) => driver_position(list@, name@, 0) < list@.len() && string_views(args@)
                == seq![
                "run"@,
                "--project"@,
                drivers_dir@,
                "python"@,
                under(drivers_dir@, list@[driver_position(list@, name@, 0)].driver_path),
            ] + option_arguments(option_views(options@)),
            Err(e) => driver_position(list@, name@, 0) == list@.len() && e@
                == DriverErrorView::UnknownDriver(name@),
        },
{
    match list.query_driver(name) {
        None => Err(DriverError::UnknownDriver(name.to_owned())),
        Some(info) => {
            let script = join_path(drivers_dir, info.driver_path.as_str());
            let ghost s = script@;
            let mut args: Vec<String> = Vec::new();
            args.push("run".to_owned());
            args.push("--project".to_owned());
            args.push(drivers_dir.to_owned());
            args.push("python".to_owned());
            args.push(script);
            assert(string_views(args@) =~= seq![
                "run"@,
                "--project"@,
                drivers_dir@,
                "python"@,
                s,
            ]);
            push_option_args(&mut args, options);
            Ok(args)
        },
    }
}

/// A driver is found by its name: the first one that has it.
pub proof fn law_drivers_by_name(drivers: Seq<DriverView>, name: Seq<char>, i: int)
    requires
        0 <= i <= drivers.len(),
    ensures
        i <= driver_position(drivers, name, i) <= drivers.len(),
        driver_position(drivers, name, i) < drivers.len() ==> drivers[driver_position(
            drivers,
            name,
            i,
        )].name == name,
        forall|k: int|
            i <= k < driver_position(drivers, name, i) ==> (#[trigger] drivers[k]).name != name,
    decreases drivers.len() - i,
{
    if i < drivers.len() && drivers[i].name != name {
        law_drivers_by_name(drivers, name, i + 1);
    }
}

/// A failure of a driver says which one it was or what the system said.
pub proof fn law_loading_failures(text: Seq<char>)
    ensures
        driver_error_message(DriverErrorView::UnknownDriver(text)) == "Unknown driver: "@ + text,
        driver_error_message(DriverErrorView::Spawn(text)) == "Failed to spawn uv run: "@ + text,
        driver_error_message(DriverErrorView::Io(text)) == "Driver I/O error: "@ + text,
{
}

} // verus!
