//! Drivers that come with the host as scripts.
use crate::host::adapter_loader::adapter::{option_arguments, push_option_args};
use crate::host::adapter_loader::bundle::{join_path, under};
use crate::host::config::{key_position, option_views, string_views};
use vstd::prelude::*;

verus! {

/// A failure of a driver.
#[derive(Debug)]
pub enum DriverError {
    UnknownDriver(String),
    Extract(String),
    Spawn(String),
    Io(String),
}

/// The mathematical content of a [`DriverError`].
pub enum DriverErrorView {
    UnknownDriver(Seq<char>),
    Extract(Seq<char>),
    Spawn(Seq<char>),
    Io(Seq<char>),
}

impl View for DriverError {
    type V = DriverErrorView;

    open spec fn view(&self) -> DriverErrorView {
        match self {
            DriverError::UnknownDriver(name) => DriverErrorView::UnknownDriver(name@),
            DriverError::Extract(text) => DriverErrorView::Extract(text@),
            DriverError::Spawn(text) => DriverErrorView::Spawn(text@),
            DriverError::Io(text) => DriverErrorView::Io(text@),
        }
    }
}

/// The text of a failure.
pub open spec fn driver_error_message(e: DriverErrorView) -> Seq<char> {
    match e {
        DriverErrorView::UnknownDriver(name) => "Unknown driver: "@ + name,
        DriverErrorView::Extract(text) => "Failed to extract driver file: "@ + text,
        DriverErrorView::Spawn(text) => "Failed to spawn python3 process: "@ + text,
        DriverErrorView::Io(text) => "Driver I/O error: "@ + text,
    }
}

impl DriverError {
    /// The text shown to a person.
    pub fn message(&self) -> (r: String)
        ensures
            r@ == driver_error_message(self@),
    {
        match self {
            DriverError::UnknownDriver(name) => {
                let mut out = "Unknown driver: ".to_owned();
                out.push_str(name.as_str());
                out
            },
            DriverError::Extract(text) => {
                let mut out = "Failed to extract driver file: ".to_owned();
                out.push_str(text.as_str());
                out
            },
            DriverError::Spawn(text) => {
                let mut out = "Failed to spawn python3 process: ".to_owned();
                out.push_str(text.as_str());
                out
            },
            DriverError::Io(text) => {
                let mut out = "Driver I/O error: ".to_owned();
                out.push_str(text.as_str());
                out
            },
        }
    }
}

/// The source of the driver of this name, among pairs of name and source.
pub fn driver_source<'a>(embedded: &'a [(String, String)], name: &str) -> (r: Result<
    &'a str,
    DriverError,
>)
    ensures
        ({
            let views = option_views(embedded@);
            let at = key_position(views, name@, 0);
            match r {
                Ok(source) => at < views.len() && source@ == views[at].1,
                Err(e) => at == views.len() && e@ == DriverErrorView::UnknownDriver(name@),
            }
        }),
{
    let at: usize = crate::host::config::find_key(embedded, name);
    if at < embedded.len() {
        Ok(embedded[at].1.as_str())
    } else {
        Err(DriverError::UnknownDriver(name.to_owned()))
    }
}

/// Where the source of a driver is written to.
pub fn driver_script(temp_dir: &str, name: &str) -> (r: String)
    ensures
        r@ == under(temp_dir@, name@ + ".py"@),
{
    let mut file = name.to_owned();
    file.push_str(".py");
    join_path(temp_dir, file.as_str())
}

/// The arguments that make `python3` run a driver.
pub fn python_args(script: &str, options: &[(String, String)]) -> (r: Vec<String>)
    ensures
        string_views(r@) == seq![script@] + option_arguments(option_views(options@)),
{
    let mut args: Vec<String> = Vec::new();
    args.push(script.to_owned());
    assert(string_views(args@) =~= seq![script@]);
    push_option_args(&mut args, options);
    args
}

/// A failure of a driver says which one it was or what the system said.
pub proof fn law_driver_failures(text: Seq<char>)
    ensures
        driver_error_message(DriverErrorView::UnknownDriver(text)) == "Unknown driver: "@ + text,
        driver_error_message(DriverErrorView::Extract(text)) == "Failed to extract driver file: "@
            + text,
        driver_error_message(DriverErrorView::Spawn(text)) == "Failed to spawn python3 process: "@
            + text,
        driver_error_message(DriverErrorView::Io(text)) == "Driver I/O error: "@ + text,
{
}

} // verus!
