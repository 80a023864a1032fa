//! Running an adapter.
use crate::host::adapter_loader::bundle::{join_path, under};
use crate::host::adapter_loader::list::{adapter_position, AdapterList};
use crate::host::config::{option_views, string_views};
use crate::text::{push_signed_decimal, signed_decimal};
use vstd::prelude::*;

verus! {

/// A device as an adapter lists it.
#[derive(Debug, Clone)]
pub struct RawDevice {
    pub identifier: String,
    pub name: String,
    pub description: String,
}

/// A failure of an adapter.
#[derive(Debug)]
pub enum AdapterError {
    UnknownDriver(String),
    Spawn(String),
    Io(String),
    ListFailed(String, i32),
    Json(String),
}

/// The mathematical content of an [`AdapterError`].
pub enum AdapterErrorView {
    UnknownDriver(Seq<char>),
    Spawn(Seq<char>),
    Io(Seq<char>),
    ListFailed(Seq<char>, i32),
    Json(Seq<char>),
}

impl View for AdapterError {
    type V = AdapterErrorView;

    open spec fn view(&self) -> AdapterErrorView {
        match self {
            AdapterError::UnknownDriver(name) => AdapterErrorView::UnknownDriver(name@),
            AdapterError::Spawn(text) => AdapterErrorView::Spawn(text@),
            AdapterError::Io(text) => AdapterErrorView::Io(text@),
            AdapterError::ListFailed(script, code) => AdapterErrorView::ListFailed(script@, *code),
            AdapterError::Json(text) => AdapterErrorView::Json(text@),
        }
    }
}

/// The text of a failure.
pub open spec fn adapter_error_message(e: AdapterErrorView) -> Seq<char> {
    match e {
        AdapterErrorView::UnknownDriver(name) => "Unknown driver: "@ + name,
        AdapterErrorView::Spawn(text) => "Failed to spawn uv run: "@ + text,
        AdapterErrorView::Io(text) => "Adapter I/O error: "@ + text,
        AdapterErrorView::ListFailed(script, code) => "Failed to list devices for adapter '"@
            + script + "': exit code "@ + signed_decimal(code as int),
        AdapterErrorView::Json(text) => "Failed to parse device JSON: "@ + text,
    }
}

impl AdapterError {
    /// The text shown to a person.
    pub fn message(&self) -> (r: String)
        ensures
            r@ == adapter_error_message(self@),
    {
        match self {
            AdapterError::UnknownDriver(name) => {
                let mut out = "Unknown driver: ".to_owned();
                out.push_str(name.as_str());
                out
            },
            AdapterError::Spawn(text) => {
                let mut out = "Failed to spawn uv run: ".to_owned();
                out.push_str(text.as_str());
                out
            },
            AdapterError::Io(text) => {
                let mut out = "Adapter I/O error: ".to_owned();
                out.push_str(text.as_str());
                out
            },
            AdapterError::ListFailed(script, code) => {
                let mut out = "Failed to list devices for adapter '".to_owned();
                out.push_str(script.as_str());
                out.push_str("': exit code ");
                push_signed_decimal(&mut out, *code as i64);
                out
            },
            AdapterError::Json(text) => {
                let mut out = "Failed to parse device JSON: ".to_owned();
                out.push_str(text.as_str());
                out
            },
        }
    }
}

/// How a listing ended: an exit code other than success is a failure, and a
/// missing one counts as -1.
pub fn listing_outcome(script: &str, success: bool, code: Option<i32>) -> (r: Result<
    (),
    AdapterError,
>)
    ensures
        match r {
            Ok(()) => success,
            Err(e) => !success && e@ == AdapterErrorView::ListFailed(
                script@,
                match code {
                    Some(c) => c,
                    None => -1i32,
                },
            ),
        },
{
    if success {
        Ok(())
    } else {
        let shown: i32 = match code {
            Some(c) => c,
            None => -1,
        };
        Err(AdapterError::ListFailed(script.to_owned(), shown))
    }
}

/// The script of the adapter of this name.
pub fn adapter_script(list: &AdapterList, name: &str, drivers_dir: &str) -> (r: Result<
    String,
    AdapterError,
>)
    ensures
        match r {
            Ok(script) => adapter_position(list@, name@, 0) < list@.len() && script@ == under(
                drivers_dir@,
                list@[adapter_position(list@, name@, 0)].path,
            ),
            Err(e) => adapter_position(list@, name@, 0) == list@.len() && e@
                == AdapterErrorView::UnknownDriver(name@),
        },
{
    match list.find(name) {
        Some(item) => Ok(join_path(drivers_dir, item.path.as_str())),
        None => Err(AdapterError::UnknownDriver(name.to_owned())),
    }
}

/// Options as arguments: each key with two dashes in front, then its value.
pub open spec fn option_arguments(options: Seq<(Seq<char>, Seq<char>)>) -> Seq<Seq<char>>
    decreases options.len(),
{
    if options.len() == 0 {
        Seq::empty()
    } else {
        option_arguments(options.drop_last()) + seq!["--"@ + options.last().0, options.last().1]
    }
}

/// Appends options as arguments.
pub fn push_option_args(args: &mut Vec<String>, options: &[(String, String)])
    ensures
        string_views(final(args)@) == string_views(old(args)@) + option_arguments(
            option_views(options@),
        ),
{
    let ghost before = string_views(args@);
    let ghost views = option_views(options@);
    let mut i: usize = 0;
    assert(before + option_arguments(views.take(0)) =~= before);
    while i < options.len()
        invariant
            i <= options.len(),
            views == option_views(options@),
            string_views(args@) == before + option_arguments(views.take(i as int)),
        decreases options.len() - i,
    {
        let ghost so_far = string_views(args@);
        let mut key = "--".to_owned();
        key.push_str(options[i].0.as_str());
        let value = options[i].1.clone();
        let ghost k = key@;
        let ghost v = value@;
        args.push(key);
        args.push(value);
        proof {
            assert(string_views(args@) =~= so_far + seq![k, v]);
            assert(views.take(i as int + 1).drop_last() =~= views.take(i as int));
            assert(views.take(i as int + 1).last() == views[i as int]);
            let front = option_arguments(views.take(i as int));
            assert((before + front) + seq![k, v] =~= before + (front + seq![k, v]));
        }
        i = i + 1;
    }
    assert(views.take(i as int) =~= views);
}

/// The arguments that make `uv` list the devices of an adapter.
pub fn list_args(adapter_dir: &str, script: &str) -> (r: Vec<String>)
    ensures
        string_views(r@) == seq![
            "run"@,
            "--project"@,
            adapter_dir@,
            "python"@,
            script@,
            "list"@,
        ],
{
    let mut args: Vec<String> = Vec::new();
    args.push("run".to_owned());
    args.push("--project".to_owned());
    args.push(adapter_dir.to_owned());
    args.push("python".to_owned());
    args.push(script.to_owned());
    args.push("list".to_owned());
    assert(string_views(args@) =~= seq![
        "run"@,
        "--project"@,
        adapter_dir@,
        "python"@,
        script@,
        "list"@,
    ]);
    args
}

/// The arguments that make `uv` run an adapter for a device.
pub fn spawn_args(
    adapter_dir: &str,
    script: &str,
    device_identifier: &str,
    device_name: &str,
    options: &[(String, String)],
) -> (r: Vec<String>)
    ensures
        string_views(r@) == seq![
            "run"@,
            "--project"@,
            adapter_dir@,
            "python"@,
            script@,
            "run"@,
            device_identifier@,
            device_name@,
        ] + option_arguments(option_views(options@)),
{
    let mut args: Vec<String> = Vec::new();
    args.push("run".to_owned());
    args.push("--project".to_owned());
    args.push(adapter_dir.to_owned());
    args.push("python".to_owned());
    args.push(script.to_owned());
    args.push("run".to_owned());
    args.push(device_identifier.to_owned());
    args.push(device_name.to_owned());
    assert(string_views(args@) =~= seq![
        "run"@,
        "--project"@,
        adapter_dir@,
        "python"@,
        script@,
        "run"@,
        device_identifier@,
        device_name@,
    ]);
    push_option_args(&mut args, options);
    args
}

/// Every option becomes two arguments, its key with two dashes in front and its
/// value, in the order of the options.
pub proof fn law_option_arguments(options: Seq<(Seq<char>, Seq<char>)>, i: int)
    requires
        0 <= i < options.len(),
    ensures
        option_arguments(options).len() == 2 * options.len(),
        option_arguments(options)[2 * i] == seq!['-', '-'] + options[i].0,
        option_arguments(options)[2 * i + 1] == options[i].1,
    decreases options.len(),
{
    reveal_strlit("--");
    assert("--"@ =~= seq!['-', '-']);
    let front = options.drop_last();
    if front.len() == 0 {
        assert(option_arguments(front).len() == 0);
    } else {
        law_option_arguments(
            front,
            if i < front.len() {
                i
            } else {
                0
            },
        );
    }
}

/// A failure of an adapter says which one it was, what the system said, or how
/// its listing ended.
pub proof fn law_adapter_failures(text: Seq<char>, code: i32)
    ensures
        adapter_error_message(AdapterErrorView::UnknownDriver(text)) == "Unknown driver: "@ + text,
        adapter_error_message(AdapterErrorView::Spawn(text)) == "Failed to spawn uv run: "@ + text,
        adapter_error_message(AdapterErrorView::Io(text)) == "Adapter I/O error: "@ + text,
        adapter_error_message(AdapterErrorView::Json(text)) == "Failed to parse device JSON: "@
            + text,
        adapter_error_message(AdapterErrorView::ListFailed(text, code))
            == "Failed to list devices for adapter '"@ + text + "': exit code "@ + signed_decimal(
            code as int,
        ),
{
}

} // verus!
