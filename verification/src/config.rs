//! Runtime configuration: a handful of display and behaviour toggles
//! read from the program's configuration file by the binary and handed
//! to the library as plain values.

use vstd::prelude::*;

verus! {

/// The settings that steer note entry and listing.
pub struct Config {
    edit_app: String,
    default_name: String,
    include_time: bool,
    group_by_date: bool,
    no_empty_adds_or_updates: bool,
}

impl Config {
    /// The external editor command, as contracts see it.
    pub closed spec fn spec_edit_app(&self) -> Seq<char> {
        self.edit_app@
    }

    /// The default note name, as contracts see it.
    pub closed spec fn spec_default_name(&self) -> Seq<char> {
        self.default_name@
    }

    /// The time-of-day toggle, as contracts see it.
    pub closed spec fn spec_include_time(&self) -> bool {
        self.include_time
    }

    /// The grouping toggle, as contracts see it.
    pub closed spec fn spec_group_by_date(&self) -> bool {
        self.group_by_date
    }

    /// The discard-empty toggle, as contracts see it.
    pub closed spec fn spec_no_empty_adds_or_updates(&self) -> bool {
        self.no_empty_adds_or_updates
    }

    /// The external editor command; empty means the built-in editor.
    pub fn edit_app(&self) -> (r: &String)
        ensures
            r@ == self.spec_edit_app(),
    {
        &self.edit_app
    }

    /// The name given to notes added without one; empty means none.
    pub fn default_name(&self) -> (r: &String)
        ensures
            r@ == self.spec_default_name(),
    {
        &self.default_name
    }

    /// Whether listings show the time of day beside the date.
    #[verifier::when_used_as_spec(spec_include_time)]
    pub fn include_time(&self) -> (r: bool)
        ensures
            r == self.spec_include_time(),
    {
        self.include_time
    }

    /// Whether listings are grouped under their header line.
    #[verifier::when_used_as_spec(spec_group_by_date)]
    pub fn group_by_date(&self) -> (r: bool)
        ensures
            r == self.spec_group_by_date(),
    {
        self.group_by_date
    }

    /// Whether notes whose text came back empty are discarded.
    #[verifier::when_used_as_spec(spec_no_empty_adds_or_updates)]
    pub fn no_empty_adds_or_updates(&self) -> (r: bool)
        ensures
            r == self.spec_no_empty_adds_or_updates(),
    {
        self.no_empty_adds_or_updates
    }

    /// Builds a configuration from its five settings.
    pub fn new(
        edit_app: String,
        default_name: String,
        include_time: bool,
        group_by_date: bool,
        no_empty_adds_or_updates: bool,
    ) -> (r: Config)
        ensures
            r.spec_edit_app() == edit_app@,
            r.spec_default_name() == default_name@,
            r.spec_include_time() == include_time,
            r.spec_group_by_date() == group_by_date,
            r.spec_no_empty_adds_or_updates() == no_empty_adds_or_updates,
    {
        Config { edit_app, default_name, include_time, group_by_date, no_empty_adds_or_updates }
    }
}

impl Default for Config {
    /// Empty editor command, no default name, every toggle off.
    fn default() -> (r: Config)
        ensures
            r.spec_edit_app() == Seq::<char>::empty(),
            r.spec_default_name() == Seq::<char>::empty(),
            !r.spec_include_time(),
            !r.spec_group_by_date(),
            !r.spec_no_empty_adds_or_updates(),
    {
        Config {
            edit_app: String::new(),
            default_name: String::new(),
            include_time: false,
            group_by_date: false,
            no_empty_adds_or_updates: false,
        }
    }
}

/// Wraps a string in `Some` when it holds text and in `None` when it is empty.
pub fn string_optional(value: String) -> (r: Option<String>)
    ensures
        value@.len() == 0 ==> r is None,
        value@.len() != 0 ==> (r matches Some(v) && v@ == value@),
{
    if value.as_str().is_empty() {
        None
    } else {
        Some(value)
    }
}

} // verus!
