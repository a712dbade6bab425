use vstd::prelude::*;
use vstd::string::*;
use crate::doc::{Doc, key_at, unique_keys, lookup, lemma_lookup_at, lemma_lookup_wf};
use crate::merge::{Mismatch, merged_into, refusals_reported, records, refusals, find_key, merge_with_fallback};

verus! {

broadcast use vstd::std_specs::vec::group_vec_axioms;

/// Debounce delay, in milliseconds, of the built-in configuration.
pub const DEFAULT_DEBOUNCE: u64 = 300;

pub const DEFAULT_NORMAL: &'static str = "msg='normal orientation'; printf '%s\n' \"$msg\" | systemd-cat -t iio-rotation 2>/dev/null || logger -t iio-rotation -p user.notice -- \"$msg\"";

pub const DEFAULT_LEFTUP: &'static str = "msg='leftup orientation'; printf '%s\n' \"$msg\" | systemd-cat -t iio-rotation 2>/dev/null || logger -t iio-rotation -p user.notice -- \"$msg\"";

pub const DEFAULT_RIGHTUP: &'static str = "msg='rightup orientation'; printf '%s\n' \"$msg\" | systemd-cat -t iio-rotation 2>/dev/null || logger -t iio-rotation -p user.notice -- \"$msg\"";

pub const DEFAULT_BOTTOMUP: &'static str = "msg='bottomup orientation'; printf '%s\n' \"$msg\" | systemd-cat -t iio-rotation 2>/dev/null || logger -t iio-rotation -p user.notice -- \"$msg\"";

pub const DEFAULT_UNDEFINED: &'static str = "msg='undefined orientation'; printf '%s\n' \"$msg\" | systemd-cat -t iio-rotation 2>/dev/null || logger -t iio-rotation -p user.notice -- \"$msg\"";

/// The shell command run for each orientation.
#[derive(Debug, Clone, PartialEq)]
pub struct Orientation {
    pub normal: String,
    pub undefined: String,
    pub leftup: String,
    pub rightup: String,
    pub bottomup: String,
}

/// The typed configuration.
#[derive(Debug, Clone, PartialEq)]
pub struct Config {
    /// Delay, in milliseconds, between a change notification and the re-read.
    pub debounce: u64,
    pub orientation: Orientation,
}

/// Why a document does not convert into a [`Config`].
#[derive(Debug, Clone, PartialEq)]
pub struct ConfigError {
    /// Dotted path of the offending field (empty for the root).
    pub path: String,
    /// The field is absent (rather than of the wrong variant).
    pub missing: bool,
}

/// The string held under `name` in table `t`, if it holds one.
pub open spec fn str_entry(t: Seq<(String, Doc)>, name: Seq<char>) -> Option<Seq<char>> {
    match lookup(t, name) {
        Some(Doc::Str(s)) => Some(s@),
        _ => None,
    }
}

/// What is wrong with the action `name` of the orientation table, if anything.
pub open spec fn action_problem(ot: Seq<(String, Doc)>, name: Seq<char>) -> Option<(Seq<char>, bool)> {
    match lookup(ot, name) {
        None => Some(("orientation."@ + name, true)),
        Some(v) => if v is Str {
            None
        } else {
            Some(("orientation."@ + name, false))
        },
    }
}

/// The first field, in the order debounce, orientation, and the actions normal,
/// undefined, leftup, rightup, bottomup, that keeps `d` from converting.
pub open spec fn config_problem(d: Doc) -> Option<(Seq<char>, bool)> {
    if !(d is Table) {
        Some((Seq::empty(), false))
    } else {
        let t = d->Table_0@;
        match lookup(t, "debounce"@) {
            None => Some(("debounce"@, true)),
            Some(v) => if !(v is Integer && v->Integer_0 >= 0) {
                Some(("debounce"@, false))
            } else {
                match lookup(t, "orientation"@) {
                    None => Some(("orientation"@, true)),
                    Some(o) => if !(o is Table) {
                        Some(("orientation"@, false))
                    } else {
                        let ot = o->Table_0@;
                        if action_problem(ot, "normal"@) is Some {
                            action_problem(ot, "normal"@)
                        } else if action_problem(ot, "undefined"@) is Some {
                            action_problem(ot, "undefined"@)
                        } else if action_problem(ot, "leftup"@) is Some {
                            action_problem(ot, "leftup"@)
                        } else if action_problem(ot, "rightup"@) is Some {
                            action_problem(ot, "rightup"@)
                        } else {
                            action_problem(ot, "bottomup"@)
                        }
                    },
                }
            },
        }
    }
}

/// The debounce delay that the convertible document `d` gives.
pub open spec fn debounce_of(d: Doc) -> int {
    lookup(d->Table_0@, "debounce"@)->Some_0->Integer_0 as int
}

/// `a` holds the actions that the convertible document `d` gives.
pub open spec fn actions_of(d: Doc, a: Orientation) -> bool {
    let ot = lookup(d->Table_0@, "orientation"@)->Some_0->Table_0@;
    &&& Some(a.normal@) == str_entry(ot, "normal"@)
    &&& Some(a.undefined@) == str_entry(ot, "undefined"@)
    &&& Some(a.leftup@) == str_entry(ot, "leftup"@)
    &&& Some(a.rightup@) == str_entry(ot, "rightup"@)
    &&& Some(a.bottomup@) == str_entry(ot, "bottomup"@)
}

/// `c` is the configuration that the convertible document `d` describes.
pub open spec fn config_of(d: Doc, c: Config) -> bool {
    c.debounce as int == debounce_of(d) && actions_of(d, c.orientation)
}

/// `d` is the built-in document: a debounce of 300 ms and the default actions.
pub open spec fn is_default_doc(d: Doc) -> bool {
    let t = d->Table_0@;
    let ot = lookup(t, "orientation"@)->Some_0->Table_0@;
    &&& d.wf()
    &&& d is Table
    &&& lookup(t, "debounce"@) == Some(Doc::Integer(300))
    &&& lookup(t, "orientation"@) matches Some(o) && o is Table
    &&& str_entry(ot, "normal"@) == Some(DEFAULT_NORMAL@)
    &&& str_entry(ot, "undefined"@) == Some(DEFAULT_UNDEFINED@)
    &&& str_entry(ot, "leftup"@) == Some(DEFAULT_LEFTUP@)
    &&& str_entry(ot, "rightup"@) == Some(DEFAULT_RIGHTUP@)
    &&& str_entry(ot, "bottomup"@) == Some(DEFAULT_BOTTOMUP@)
}

/// The value stored under `name`, if any.
fn get_entry<'a>(t: &'a Vec<(String, Doc)>, name: &str) -> (r: Option<&'a Doc>)
    requires
        unique_keys(t@),
    ensures
        match r {
            Some(v) => lookup(t@, name@) == Some(*v),
            None => lookup(t@, name@) is None,
        },
{
    let key = String::from_str(name);
    match find_key(t, &key) {
        Some(i) => {
            proof { lemma_lookup_at(t@, i as int); }
            Some(&t[i].1)
        },
        None => None,
    }
}

fn action(ot: &Vec<(String, Doc)>, name: &str) -> (r: Result<String, ConfigError>)
    requires
        unique_keys(ot@),
    ensures
        match r {
            Ok(s) => action_problem(ot@, name@) is None && str_entry(ot@, name@) == Some(s@),
            Err(e) => action_problem(ot@, name@) == Some((e.path@, e.missing)),
        },
{
    proof { reveal_strlit("orientation."); }
    match get_entry(ot, name) {
        Some(Doc::Str(s)) => Ok(s.clone()),
        Some(_) => {
            let mut p = String::from_str("orientation.");
            p.append(name);
            Err(ConfigError { path: p, missing: false })
        },
        None => {
            let mut p = String::from_str("orientation.");
            p.append(name);
            Err(ConfigError { path: p, missing: true })
        },
    }
}

/// Converts a merged document into the typed configuration; every action must be
/// present and a string, and the debounce a non-negative integer.
pub fn config_from_doc(d: &Doc) -> (r: Result<Config, ConfigError>)
    requires
        d.wf(),
    ensures
        match r {
            Ok(c) => config_problem(*d) is None && config_of(*d, c),
            Err(e) => config_problem(*d) == Some((e.path@, e.missing)),
        },
{
    proof {
        reveal_strlit("debounce");
        reveal_strlit("orientation");
    }
    let t = match d {
        Doc::Table(t) => t,
        _ => {
            return Err(ConfigError { path: String::new(), missing: false });
        },
    };
    let debounce: u64 = match get_entry(t, "debounce") {
        None => {
            return Err(ConfigError { path: String::from_str("debounce"), missing: true });
        },
        Some(Doc::Integer(n)) => {
            if *n < 0 {
                return Err(ConfigError { path: String::from_str("debounce"), missing: false });
            }
            *n as u64
        },
        Some(_) => {
            return Err(ConfigError { path: String::from_str("debounce"), missing: false });
        },
    };
    let ot = match get_entry(t, "orientation") {
        None => {
            return Err(ConfigError { path: String::from_str("orientation"), missing: true });
        },
        Some(Doc::Table(ot)) => ot,
        Some(_) => {
            return Err(ConfigError { path: String::from_str("orientation"), missing: false });
        },
    };
    proof {
        lemma_lookup_wf(t@, "orientation"@);
    }
    let normal = action(ot, "normal")?;
    let undefined = action(ot, "undefined")?;
    let leftup = action(ot, "leftup")?;
    let rightup = action(ot, "rightup")?;
    let bottomup = action(ot, "bottomup")?;
    Ok(Config { debounce, orientation: Orientation { normal, undefined, leftup, rightup, bottomup } })
}

fn entry(key: &str, v: Doc) -> (r: (String, Doc))
    ensures
        r.0@ == key@,
        r.1 == v,
{
    (String::from_str(key), v)
}

fn text(s: &str) -> (r: Doc)
    ensures
        r matches Doc::Str(t) && t@ == s@,
{
    Doc::Str(String::from_str(s))
}

/// The built-in configuration document, which every user document is merged into.
pub fn default_doc() -> (r: Doc)
    ensures
        is_default_doc(r),
        config_problem(r) is None,
{
    proof {
        reveal_strlit("debounce");
        reveal_strlit("orientation");
        reveal_strlit("normal");
        reveal_strlit("leftup");
        reveal_strlit("rightup");
        reveal_strlit("bottomup");
        reveal_strlit("undefined");
    }
    let mut ot: Vec<(String, Doc)> = Vec::new();
    ot.push(entry("normal", text(DEFAULT_NORMAL)));
    ot.push(entry("leftup", text(DEFAULT_LEFTUP)));
    ot.push(entry("rightup", text(DEFAULT_RIGHTUP)));
    ot.push(entry("bottomup", text(DEFAULT_BOTTOMUP)));
    ot.push(entry("undefined", text(DEFAULT_UNDEFINED)));
    proof {
        assert("normal"@ != "leftup"@) by {
            assert("normal"@[0] != "leftup"@[0]);
        }
        assert(key_at(ot@, 0) == "normal"@);
        assert(key_at(ot@, 1) == "leftup"@);
        assert(key_at(ot@, 2) == "rightup"@);
        assert(key_at(ot@, 3) == "bottomup"@);
        assert(key_at(ot@, 4) == "undefined"@);
        assert(unique_keys(ot@));
        assert(forall|i: int| 0 <= i < ot@.len() ==> (#[trigger] ot@[i]).1.wf());
        lemma_lookup_at(ot@, 0);
        lemma_lookup_at(ot@, 1);
        lemma_lookup_at(ot@, 2);
        lemma_lookup_at(ot@, 3);
        lemma_lookup_at(ot@, 4);
    }
    let ghost ot_v = ot@;
    let mut t: Vec<(String, Doc)> = Vec::new();
    t.push(entry("debounce", Doc::Integer(DEFAULT_DEBOUNCE as i64)));
    t.push(entry("orientation", Doc::Table(ot)));
    proof {
        assert(key_at(t@, 0) == "debounce"@);
        assert(key_at(t@, 1) == "orientation"@);
        assert(unique_keys(t@));
        lemma_lookup_at(t@, 0);
        lemma_lookup_at(t@, 1);
        let o = t@[1].1;
        assert(o->Table_0@ == ot_v);
        assert(o.wf());
        assert(forall|i: int| 0 <= i < t@.len() ==> (#[trigger] t@[i]).1.wf());
        assert(Doc::Table(t).wf());
    }
    Doc::Table(t)
}

/// `r` is what loading yields when `d` is the built-in document and `m` the
/// result of merging `user` into it: the configuration that `m` describes, with
/// `debounce_override` winning over its delay, or the first field that keeps `m`
/// from converting; beside it, the refused overrides.
pub open spec fn loaded_by(
    user: Option<Doc>,
    debounce_override: Option<u64>,
    d: Doc,
    m: Doc,
    r: (Result<Config, ConfigError>, Vec<Mismatch>),
) -> bool {
    &&& is_default_doc(d)
    &&& match user {
        Some(u) => {
            &&& merged_into(d, u, m)
            &&& refusals_reported(d, u, Seq::empty(), r.1@)
            &&& records(r.1@) == refusals(d, u, Seq::empty())
        },
        None => m == d && r.1@.len() == 0,
    }
    &&& match r.0 {
        Ok(c) => {
            &&& config_problem(m) is None
            &&& actions_of(m, c.orientation)
            &&& c.debounce as int == match debounce_override {
                Some(n) => n as int,
                None => debounce_of(m),
            }
        },
        Err(e) => config_problem(m) == Some((e.path@, e.missing)),
    }
}

/// Builds the configuration from the built-in document, the user's document if
/// there is one, and a debounce delay that wins over both if given. Returns the
/// configuration, or why the merged document does not convert, together with the
/// user's overrides that were refused.
pub fn load_config(user: Option<Doc>, debounce_override: Option<u64>) -> (r: (
    Result<Config, ConfigError>,
    Vec<Mismatch>,
))
    requires
        user matches Some(u) ==> u.wf(),
    ensures
        exists|d: Doc, m: Doc| #[trigger] loaded_by(user, debounce_override, d, m, r),
{
    let mut base = default_doc();
    let ghost d = base;
    let mut refused: Vec<Mismatch> = Vec::new();
    match user {
        Some(u) => {
            merge_with_fallback(&mut base, u, "", &mut refused);
            proof {
                reveal_strlit("");
                assert(""@ =~= Seq::<char>::empty());
                assert(records(Seq::<Mismatch>::empty()) =~= Seq::empty());
                assert(records(refused@) =~= refusals(d, u, Seq::empty()));
            }
        },
        None => {},
    }
    let r = match config_from_doc(&base) {
        Ok(mut c) => {
            match debounce_override {
                Some(n) => {
                    c.debounce = n;
                },
                None => {},
            }
            Ok(c)
        },
        Err(e) => Err(e),
    };
    proof {
        assert(loaded_by(user, debounce_override, d, base, (r, refused)));
    }
    (r, refused)
}

} // verus!
