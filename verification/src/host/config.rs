//! The configuration of the host, and options of devices.
//!
//! Options are pairs of a key and a value. No key occurs twice; pairs stand in
//! the order in which the keys were first set.
use crate::text::same_text;
use vstd::prelude::*;

verus! {

/// The mathematical content of options.
pub open spec fn option_views(options: Seq<(String, String)>) -> Seq<(Seq<char>, Seq<char>)> {
    Seq::new(options.len(), |i: int| (options[i].0@, options[i].1@))
}

/// The contents of a list of strings.
pub open spec fn string_views(v: Seq<String>) -> Seq<Seq<char>> {
    Seq::new(v.len(), |i: int| v[i]@)
}

/// No key occurs twice.
pub open spec fn keys_unique(options: Seq<(Seq<char>, Seq<char>)>) -> bool {
    forall|i: int, j: int|
        0 <= i < j < options.len() ==> (#[trigger] options[i]).0 != (#[trigger] options[j]).0
}

/// The position of a key from `i` on, or the end.
pub open spec fn key_position(
    options: Seq<(Seq<char>, Seq<char>)>,
    key: Seq<char>,
    i: int,
) -> int
    decreases options.len() - i,
{
    if 0 <= i < options.len() && options[i].0 != key {
        key_position(options, key, i + 1)
    } else {
        i
    }
}

/// Options with a key set to a value: a key that is there gets the new value,
/// another one joins at the end.
pub open spec fn option_set(
    options: Seq<(Seq<char>, Seq<char>)>,
    key: Seq<char>,
    value: Seq<char>,
) -> Seq<(Seq<char>, Seq<char>)> {
    let at = key_position(options, key, 0);
    if at < options.len() {
        options.update(at, (key, value))
    } else {
        options.push((key, value))
    }
}

/// The value of a key.
pub open spec fn option_get(options: Seq<(Seq<char>, Seq<char>)>, key: Seq<char>) -> Option<
    Seq<char>,
> {
    let at = key_position(options, key, 0);
    if at < options.len() {
        Some(options[at].1)
    } else {
        None
    }
}

/// Options with a value for a key, where the key had none.
pub open spec fn option_default(
    options: Seq<(Seq<char>, Seq<char>)>,
    key: Seq<char>,
    value: Seq<char>,
) -> Seq<(Seq<char>, Seq<char>)> {
    if option_get(options, key) is Some {
        options
    } else {
        options.push((key, value))
    }
}

pub proof fn lemma_key_position(options: Seq<(Seq<char>, Seq<char>)>, key: Seq<char>, i: int)
    requires
        0 <= i <= options.len(),
    ensures
        i <= key_position(options, key, i) <= options.len(),
        key_position(options, key, i) < options.len() ==> options[key_position(
            options,
            key,
            i,
        )].0 == key,
        forall|k: int| i <= k < key_position(options, key, i) ==> (#[trigger] options[k]).0 != key,
    decreases options.len() - i,
{
    if i < options.len() && options[i].0 != key {
        lemma_key_position(options, key, i + 1);
    }
}

/// The position of a key, or the number of options if it is not there.
pub fn find_key(options: &[(String, String)], key: &str) -> (r: usize)
    ensures
        r == key_position(option_views(options@), key@, 0),
        r <= options@.len(),
{
    let mut i: usize = 0;
    while i < options.len() && !same_text(options[i].0.as_str(), key)
        invariant
            i <= options.len(),
            key_position(option_views(options@), key@, i as int) == key_position(
                option_views(options@),
                key@,
                0,
            ),
        decreases options.len() - i,
    {
        i = i + 1;
    }
    i
}

/// Sets a key to a value.
pub fn set_option(options: &mut Vec<(String, String)>, key: &str, value: &str)
    ensures
        option_views(final(options)@) == option_set(option_views(old(options)@), key@, value@),
{
    let ghost before = option_views(options@);
    let at: usize = find_key(options.as_slice(), key);
    let pair = (key.to_owned(), value.to_owned());
    if at < options.len() {
        options.set(at, pair);
    } else {
        options.push(pair);
    }
    assert(option_views(options@) =~= option_set(before, key@, value@));
}

/// Gives a key a value if it has none.
pub fn default_option(options: &mut Vec<(String, String)>, key: &str, value: &str)
    ensures
        option_views(final(options)@) == option_default(option_views(old(options)@), key@, value@),
{
    let ghost before = option_views(options@);
    let at: usize = find_key(options.as_slice(), key);
    if at == options.len() {
        options.push((key.to_owned(), value.to_owned()));
    }
    assert(option_views(options@) =~= option_default(before, key@, value@));
}

/// The value of a key.
pub fn get_option<'a>(options: &'a [(String, String)], key: &str) -> (r: Option<&'a str>)
    ensures
        match r {
            Some(value) => option_get(option_views(options@), key@) == Some(value@),
            None => option_get(option_views(options@), key@) is None,
        },
{
    let at: usize = find_key(options, key);
    if at < options.len() {
        Some(options[at].1.as_str())
    } else {
        None
    }
}

/// A copy of options.
pub fn copy_options(options: &[(String, String)]) -> (r: Vec<(String, String)>)
    ensures
        option_views(r@) == option_views(options@),
{
    let mut out: Vec<(String, String)> = Vec::new();
    let mut i: usize = 0;
    while i < options.len()
        invariant
            i <= options.len(),
            option_views(out@) == option_views(options@).take(i as int),
        decreases options.len() - i,
    {
        let ghost before = option_views(out@);
        let key = options[i].0.clone();
        let value = options[i].1.clone();
        let ghost pair = (key@, value@);
        out.push((key, value));
        assert(option_views(out@) =~= before.push(pair));
        i = i + 1;
        assert(option_views(out@) =~= option_views(options@).take(i as int));
    }
    assert(option_views(options@).take(i as int) =~= option_views(options@));
    out
}

/// Setting a key keeps keys unique, gives the key its value, and leaves the
/// values of all other keys alone.
pub proof fn law_set_option(
    options: Seq<(Seq<char>, Seq<char>)>,
    key: Seq<char>,
    value: Seq<char>,
    other: Seq<char>,
)
    requires
        keys_unique(options),
        other != key,
    ensures
        keys_unique(option_set(options, key, value)),
        option_get(option_set(options, key, value), key) == Some(value),
        option_get(option_set(options, key, value), other) == option_get(options, other),
{
    let after = option_set(options, key, value);
    lemma_key_position(options, key, 0);
    lemma_key_position(options, other, 0);
    lemma_key_position(after, key, 0);
    lemma_key_position(after, other, 0);
    let at = key_position(options, key, 0);
    let at_other = key_position(options, other, 0);
    let new_at = key_position(after, key, 0);
    let new_other = key_position(after, other, 0);
    assert forall|i: int, j: int| 0 <= i < j < after.len() implies (#[trigger] after[i]).0 != (
    #[trigger] after[j]).0 by {
        if j < options.len() {
            assert(after[i].0 == options[i].0);
            assert(after[j].0 == options[j].0);
            assert(options[i].0 != options[j].0);
        } else {
            assert(options[i].0 != key);
        }
    }
    assert(after[at].0 == key);
    if new_at > at {
        assert(after[at].0 != key);
    }
    if new_at < at {
        assert(options[new_at].0 != key);
        assert(after[new_at].0 == options[new_at].0);
    }
    if at_other < options.len() {
        assert(after[at_other] == options[at_other]);
        if new_other > at_other {
            assert(after[at_other].0 != other);
        }
        if new_other < at_other {
            assert(after[new_other].0 == options[new_other].0);
            assert(options[new_other].0 != other);
        }
    } else {
        if new_other < after.len() {
            assert(after[new_other].0 == other);
            if new_other < options.len() {
                assert(after[new_other].0 == options[new_other].0);
                assert(options[new_other].0 != other);
            }
        }
    }
}

/// The configuration of the host.
#[derive(Debug, Clone)]
pub struct HostConfig {
    pub device: Vec<DeviceEntry>,
}

/// The configuration of one device.
#[derive(Debug, Clone)]
pub struct DeviceEntry {
    /// Name of the driver or adapter.
    pub driver: String,
    /// How the adapter identifies the device.
    pub device_identifier: String,
    /// How people name the device.
    pub device_name: String,
    /// The port on which the device is offered.
    pub port: u16,
    /// Options for the adapter.
    pub options: Vec<(String, String)>,
}

/// The mathematical content of a [`DeviceEntry`].
#[verifier::ext_equal]
pub struct EntryView {
    pub driver: Seq<char>,
    pub device_identifier: Seq<char>,
    pub device_name: Seq<char>,
    pub port: u16,
    pub options: Seq<(Seq<char>, Seq<char>)>,
}

impl View for DeviceEntry {
    type V = EntryView;

    open spec fn view(&self) -> EntryView {
        EntryView {
            driver: self.driver@,
            device_identifier: self.device_identifier@,
            device_name: self.device_name@,
            port: self.port,
            options: option_views(self.options@),
        }
    }
}

impl View for HostConfig {
    type V = Seq<EntryView>;

    open spec fn view(&self) -> Seq<EntryView> {
        Seq::new(self.device@.len(), |i: int| self.device@[i]@)
    }
}

/// The value of a key is that of the pair with the key; a key in no pair has
/// none.
pub proof fn law_option_values(options: Seq<(Seq<char>, Seq<char>)>, key: Seq<char>, i: int)
    requires
        keys_unique(options),
    ensures
        0 <= i < options.len() && options[i].0 == key ==> option_get(options, key) == Some(
            options[i].1,
        ),
        option_get(options, key) is None <==> forall|k: int|
            0 <= k < options.len() ==> (#[trigger] options[k]).0 != key,
{
    lemma_key_position(options, key, 0);
    let at = key_position(options, key, 0);
    if 0 <= i < options.len() && options[i].0 == key {
        if at < i {
            assert(options[at].0 != options[i].0);
        }
        if at > i {
            assert(options[i].0 != key);
        }
    }
    if at < options.len() {
        assert(options[at].0 == key);
    }
}

/// Setting a key that is there changes its value in its place; another key
/// joins at the end. All other pairs stay in their places.
pub proof fn law_set_in_place(
    options: Seq<(Seq<char>, Seq<char>)>,
    key: Seq<char>,
    value: Seq<char>,
    i: int,
)
    requires
        keys_unique(options),
        0 <= i < options.len(),
    ensures
        ({
            let after = option_set(options, key, value);
            &&& after[i] == if options[i].0 == key {
                (key, value)
            } else {
                options[i]
            }
            &&& (forall|k: int| 0 <= k < options.len() ==> (#[trigger] options[k]).0 != key)
                ==> after == options.push((key, value))
            &&& (exists|k: int| 0 <= k < options.len() && (#[trigger] options[k]).0 == key)
                ==> after.len() == options.len()
        }),
{
    lemma_key_position(options, key, 0);
    let at = key_position(options, key, 0);
    if at < options.len() && options[i].0 == key && at != i {
        if at < i {
            assert(options[at].0 != options[i].0);
        } else {
            assert(options[i].0 != key);
        }
    }
}

/// A default value counts only for a key that has none, and no other key is
/// touched.
pub proof fn law_defaults(
    options: Seq<(Seq<char>, Seq<char>)>,
    key: Seq<char>,
    value: Seq<char>,
)
    requires
        keys_unique(options),
    ensures
        (exists|k: int| 0 <= k < options.len() && (#[trigger] options[k]).0 == key)
            ==> option_default(options, key, value) == options,
        (forall|k: int| 0 <= k < options.len() ==> (#[trigger] options[k]).0 != key)
            ==> option_default(options, key, value) == options.push((key, value)),
{
    lemma_key_position(options, key, 0);
    let at = key_position(options, key, 0);
    if at < options.len() {
        assert(options[at].0 == key);
    }
}

} // verus!
