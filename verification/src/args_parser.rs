//! Settings of a run: the values that the configuration file and the
//! command line supply, kept in a map from setting names to [`Value`]s.

use vstd::prelude::*;
use vstd::hash_map::StringHashMap;
use crate::text::{decimal, decimal_int, push_decimal, push_decimal_i64, unit_result_view};
use crate::tools::voter;

verus! {

/// A setting's value.
#[derive(Clone, Debug)]
pub enum Value {
    UInt(u64),
    Int(i64),
    Str(String),
    Bool(bool),
}

/// A [`Value`] with its text taken as a sequence of characters.
pub enum ValueView {
    UInt(u64),
    Int(i64),
    Str(Seq<char>),
    Bool(bool),
}

impl View for Value {
    type V = ValueView;

    open spec fn view(&self) -> ValueView {
        match self {
            Value::UInt(v) => ValueView::UInt(*v),
            Value::Int(v) => ValueView::Int(*v),
            Value::Str(s) => ValueView::Str(s@),
            Value::Bool(b) => ValueView::Bool(*b),
        }
    }
}

/// The settings of a run, by name.
pub type Settings = StringHashMap<Value>;

/// Settings with nothing set yet.
pub fn new_settings() -> (r: StringHashMap<Value>)
    ensures
        r@ == Map::<Seq<char>, Value>::empty(),
{
    StringHashMap::new()
}

/// The settings map with each value taken by its view.
pub open spec fn settings_view(m: Map<Seq<char>, Value>) -> Map<Seq<char>, ValueView> {
    m.map_values(|v: Value| v@)
}

pub proof fn lemma_settings_view_insert(m: Map<Seq<char>, Value>, k: Seq<char>, v: Value)
    ensures
        settings_view(m.insert(k, v)) == settings_view(m).insert(k, v@),
{
    assert(settings_view(m.insert(k, v)) =~= settings_view(m).insert(k, v@));
}

/// What `format!("{:?}", s)` writes for a string slice `s`: std's `Debug`
/// rendering, in double quotes with special characters escaped.
pub uninterp spec fn str_debug(s: Seq<char>) -> Seq<char>;

/// Renders `s` with std's `<str as Debug>::fmt`. The result is named
/// `str_debug`; nothing more of it is stated.
#[verifier::external_body]
fn debug_str(s: &str) -> (r: String)
    ensures
        r@ == str_debug(s@),
{
    format!("{:?}", s)
}

/// The `Debug` rendering of a value: the variant's name and its payload in
/// parentheses, such as `UInt(5)` or `Str("abc")`.
pub open spec fn value_debug(v: ValueView) -> Seq<char> {
    match v {
        ValueView::UInt(n) => "UInt("@ + decimal(n as nat) + ")"@,
        ValueView::Int(n) => "Int("@ + decimal_int(n as int) + ")"@,
        ValueView::Str(s) => "Str("@ + str_debug(s) + ")"@,
        ValueView::Bool(b) => "Bool("@ + (if b { "true"@ } else { "false"@ }) + ")"@,
    }
}

/// The error that a conversion of `v` to a kind it does not have reports,
/// for the kind named `kind` (such as `"an u64"`).
pub open spec fn not_a_msg(v: ValueView, kind: Seq<char>) -> Seq<char> {
    "Value \""@ + value_debug(v) + "\" is not "@ + kind + "."@
}

impl Value {
    /// The `Debug` rendering of this value, as `format!("{:?}", self)` writes it.
    pub fn debug_string(&self) -> (r: String)
        ensures
            r@ == value_debug(self@),
    {
        let mut s = String::new();
        match self {
            Value::UInt(n) => {
                s.append("UInt(");
                push_decimal(&mut s, *n);
            },
            Value::Int(n) => {
                s.append("Int(");
                push_decimal_i64(&mut s, *n);
            },
            Value::Str(v) => {
                s.append("Str(");
                let d = debug_str(v.as_str());
                s.append(d.as_str());
            },
            Value::Bool(b) => {
                s.append("Bool(");
                if *b {
                    s.append("true");
                } else {
                    s.append("false");
                }
            },
        }
        s.append(")");
        assert(s@ =~= value_debug(self@));
        s
    }

    fn not_a(&self, kind: &str) -> (r: String)
        ensures
            r@ == not_a_msg(self@, kind@),
    {
        let mut s = String::from_str("Value \"");
        let d = self.debug_string();
        s.append(d.as_str());
        s.append("\" is not ");
        s.append(kind);
        s.append(".");
        assert(s@ =~= not_a_msg(self@, kind@));
        s
    }
}

/// Reading a setting's value as one kind of value.
pub trait Convert {
    fn as_u64(&self) -> Result<u64, String>;

    fn as_i64(&self) -> Result<i64, String>;

    fn as_str(&self) -> Result<String, String>;

    fn as_bool(&self) -> Result<bool, String>;
}

impl Convert for Value {
    /// The number of a `UInt`; an error naming the value for any other kind.
    fn as_u64(&self) -> (r: Result<u64, String>)
        ensures
            match self@ {
                ValueView::UInt(v) => r == Ok::<u64, String>(v),
                _ => r matches Err(e) && e@ == not_a_msg(self@, "an u64"@),
            },
    {
        match self {
            Value::UInt(v) => Ok(*v),
            _ => Err(self.not_a("an u64")),
        }
    }

    /// The number of an `Int`; an error naming the value for any other kind.
    fn as_i64(&self) -> (r: Result<i64, String>)
        ensures
            match self@ {
                ValueView::Int(v) => r == Ok::<i64, String>(v),
                _ => r matches Err(e) && e@ == not_a_msg(self@, "an i64"@),
            },
    {
        match self {
            Value::Int(v) => Ok(*v),
            _ => Err(self.not_a("an i64")),
        }
    }

    /// A copy of the text of a `Str`; an error naming the value for any other kind.
    fn as_str(&self) -> (r: Result<String, String>)
        ensures
            match self@ {
                ValueView::Str(v) => r matches Ok(s) && s@ == v,
                _ => r matches Err(e) && e@ == not_a_msg(self@, "a String"@),
            },
    {
        match self {
            Value::Str(v) => Ok(v.clone()),
            _ => Err(self.not_a("a String")),
        }
    }

    /// The flag of a `Bool`; an error naming the value for any other kind.
    fn as_bool(&self) -> (r: Result<bool, String>)
        ensures
            match self@ {
                ValueView::Bool(v) => r == Ok::<bool, String>(v),
                _ => r matches Err(e) && e@ == not_a_msg(self@, "a bool"@),
            },
    {
        match self {
            Value::Bool(v) => Ok(*v),
            _ => Err(self.not_a("a bool")),
        }
    }
}


// ---------------------------------------------------------------------------
// The configuration file
// ---------------------------------------------------------------------------

/// What `yaml_rust::YamlLoader::load_from_str` reads from `text`: `None`
/// where it reports an error, else the number of YAML documents.
pub uninterp spec fn yaml_doc_count(text: Seq<char>) -> Option<nat>;

/// What `doc[key].as_str()` gives for the first document `doc` that
/// `load_from_str` reads from `text`: the entry `key` of that document where
/// the document is a mapping and the entry is a string, else `None`.
pub uninterp spec fn yaml_first_doc_str(text: Seq<char>, key: Seq<char>) -> Option<Seq<char>>;

/// An entry of the first document of a YAML text.
pub enum YamlEntry {
    /// The text is not YAML.
    Unreadable,
    /// The text holds no document.
    NoDocument,
    /// The entry's text, where it is a string.
    Found(Option<String>),
}

/// An optional text as an optional sequence of characters.
pub open spec fn opt_text(o: Option<String>) -> Option<Seq<char>> {
    match o {
        Some(s) => Some(s@),
        None => None,
    }
}

/// Reads `text` with `yaml_rust::YamlLoader::load_from_str` and, where that
/// gives at least one document, entry `key` of the first one with
/// `Index<&str>` and `Yaml::as_str`. Whether the text loads and how many
/// documents it holds is named `yaml_doc_count`, the entry
/// `yaml_first_doc_str`; neither YAML itself nor the loader is described here.
#[verifier::external_body]
fn yaml_first_doc_entry(text: &str, key: &str) -> (r: YamlEntry)
    ensures
        r is Unreadable <==> yaml_doc_count(text@) is None,
        r is NoDocument <==> yaml_doc_count(text@) == Some(0nat),
        r matches YamlEntry::Found(v) ==> opt_text(v) == yaml_first_doc_str(text@, key@),
{
    match yaml_rust::YamlLoader::load_from_str(text) {
        Err(_) => YamlEntry::Unreadable,
        Ok(docs) => match docs.get(0) {
            None => YamlEntry::NoDocument,
            Some(doc) => YamlEntry::Found(doc[key].as_str().map(String::from)),
        },
    }
}

/// The settings and outcome after an outcome `r` of a first step, where an
/// error stops and `Ok` goes on with `next`.
pub open spec fn then_spec(
    r: Option<(Map<Seq<char>, ValueView>, Result<(), Seq<char>>)>,
    next: spec_fn(Map<Seq<char>, ValueView>) -> Option<(Map<Seq<char>, ValueView>, Result<(), Seq<char>>)>,
) -> Option<(Map<Seq<char>, ValueView>, Result<(), Seq<char>>)> {
    match r {
        None => None,
        Some((m, Err(e))) => Some((m, Err(e))),
        Some((m, Ok(()))) => next(m),
    }
}

/// The settings and outcome of reading the configuration file `config`,
/// whose text is `text` (`None` where it cannot be opened), into `m`.
/// `None` where the run cannot go on and the program stops with a panic:
/// the text holds no document, or the voter entry stops the voter
/// argument's reading so.
///
/// The file must give a string `token`; a string `voter` entry is read as
/// a voter argument.
pub open spec fn parse_yaml_spec(
    m: Map<Seq<char>, ValueView>,
    config: Seq<char>,
    text: Option<Seq<char>>,
) -> Option<(Map<Seq<char>, ValueView>, Result<(), Seq<char>>)> {
    match text {
        None => Some((m, Err("Can't open file \""@ + config + "\"."@))),
        Some(t) => match yaml_doc_count(t) {
            None => Some((m, Err("Can't load config \""@ + config + "\""@))),
            Some(n) => if n == 0 {
                None
            } else {
                match yaml_first_doc_str(t, "token"@) {
                    None => Some((m, Err("Token in config file required!"@))),
                    Some(tok) => {
                        let m1 = m.insert("token"@, ValueView::Str(tok));
                        match yaml_first_doc_str(t, "voter"@) {
                            None => Some((m1, Ok(()))),
                            Some(v) => voter::parse_spec(m1, v),
                        }
                    },
                }
            },
        },
    }
}

fn config_error(prefix: &str, config: &str, suffix: &str) -> (r: String)
    ensures
        r@ == prefix@ + config@ + suffix@,
{
    let mut s = String::from_str(prefix);
    s.append(config);
    s.append(suffix);
    s
}

/// Reads the configuration file `config`, whose text is `text` (`None`
/// where it could not be opened), into the settings (see
/// [`parse_yaml_spec`]).
pub fn parse_yaml(map: &mut StringHashMap<Value>, config: &str, text: Option<&str>) -> (r: Option<
    Result<(), String>,
>)
    ensures
        match parse_yaml_spec(settings_view(old(map)@), config@, opt_str(text)) {
            None => r is None,
            Some((m, res)) => r matches Some(x) && unit_result_view(x) == res && settings_view(
                final(map)@,
            ) == m,
        },
{
    let t = match text {
        None => return Some(Err(config_error("Can't open file \"", config, "\"."))),
        Some(t) => t,
    };
    let token = match yaml_first_doc_entry(t, "token") {
        YamlEntry::Unreadable => return Some(Err(config_error("Can't load config \"", config, "\""))),
        YamlEntry::NoDocument => return None,
        YamlEntry::Found(None) => return Some(Err(String::from_str("Token in config file required!"))),
        YamlEntry::Found(Some(tok)) => tok,
    };
    let ghost old_m = map@;
    map.insert(String::from_str("token"), Value::Str(token));
    proof {
        lemma_settings_view_insert(old_m, "token"@, Value::Str(token));
    }
    match yaml_first_doc_entry(t, "voter") {
        YamlEntry::Found(Some(v)) => voter::parse(map, v.as_str()),
        YamlEntry::Found(None) => Some(Ok(())),
        YamlEntry::Unreadable => {
            proof { assert(false); }
            None
        },
        YamlEntry::NoDocument => {
            proof { assert(false); }
            None
        },
    }
}

/// An optional string slice as an optional sequence of characters.
pub open spec fn opt_str(o: Option<&str>) -> Option<Seq<char>> {
    match o {
        Some(s) => Some(s@),
        None => None,
    }
}

// ---------------------------------------------------------------------------
// The command line
// ---------------------------------------------------------------------------

/// The settings and outcome of the command-line options `--voter` and
/// `--out` (each `None` where absent) read into `m`: the voter argument is
/// read first, and `out` is set where given.
pub open spec fn parse_matches_spec(
    m: Map<Seq<char>, ValueView>,
    voter_arg: Option<Seq<char>>,
    out: Option<Seq<char>>,
) -> Option<(Map<Seq<char>, ValueView>, Result<(), Seq<char>>)> {
    let set_out = |m1: Map<Seq<char>, ValueView>|
        Some(
            (
                match out {
                    Some(o) => m1.insert("out"@, ValueView::Str(o)),
                    None => m1,
                },
                Ok(()),
            ),
        );
    match voter_arg {
        Some(v) => then_spec(voter::parse_spec(m, v), set_out),
        None => set_out(m),
    }
}

/// Reads the command-line options `--voter` and `--out` into the settings
/// (see [`parse_matches_spec`]).
pub fn parse_matches(map: &mut StringHashMap<Value>, voter_arg: Option<&str>, out: Option<&str>) -> (r:
    Option<Result<(), String>>)
    ensures
        match parse_matches_spec(settings_view(old(map)@), opt_str(voter_arg), opt_str(out)) {
            None => r is None,
            Some((m, res)) => r matches Some(x) && unit_result_view(x) == res && settings_view(
                final(map)@,
            ) == m,
        },
{
    if let Some(v) = voter_arg {
        match voter::parse(map, v) {
            None => return None,
            Some(Err(e)) => return Some(Err(e)),
            Some(Ok(())) => {},
        }
    }
    if let Some(o) = out {
        let ghost old_m = map@;
        let val = Value::Str(String::from_str(o));
        map.insert(String::from_str("out"), val);
        proof {
            lemma_settings_view_insert(old_m, "out"@, val);
        }
    }
    Some(Ok(()))
}

/// The settings and outcome of a run's configuration: the configuration
/// file `config` with text `text`, then the command-line options.
pub open spec fn parse_spec(
    m: Map<Seq<char>, ValueView>,
    config: Seq<char>,
    text: Option<Seq<char>>,
    voter_arg: Option<Seq<char>>,
    out: Option<Seq<char>>,
) -> Option<(Map<Seq<char>, ValueView>, Result<(), Seq<char>>)> {
    then_spec(
        parse_yaml_spec(m, config, text),
        |m1: Map<Seq<char>, ValueView>| parse_matches_spec(m1, voter_arg, out),
    )
}

/// Reads a run's configuration into the settings: the configuration file
/// `config`, whose text is `text` (`None` where it could not be opened),
/// then the options `--voter` and `--out` (see [`parse_spec`]). `None` where
/// the run cannot go on and the program stops with a panic.
pub fn parse(
    map: &mut StringHashMap<Value>,
    config: &str,
    text: Option<&str>,
    voter_arg: Option<&str>,
    out: Option<&str>,
) -> (r: Option<Result<(), String>>)
    ensures
        match parse_spec(
            settings_view(old(map)@),
            config@,
            opt_str(text),
            opt_str(voter_arg),
            opt_str(out),
        ) {
            None => r is None,
            Some((m, res)) => r matches Some(x) && unit_result_view(x) == res && settings_view(
                final(map)@,
            ) == m,
        },
{
    match parse_yaml(map, config, text) {
        None => return None,
        Some(Err(e)) => return Some(Err(e)),
        Some(Ok(())) => {},
    }
    parse_matches(map, voter_arg, out)
}


/// Whenever the options are read without error and `--out` is given, the
/// settings afterwards name that file under `out`, whether or not a voter
/// argument was given; without `--out` the `out` setting is left as it was.
/// Without a voter argument, reading the options never fails.
pub proof fn law_out_option(
    m: Map<Seq<char>, ValueView>,
    voter_arg: Option<Seq<char>>,
    out: Option<Seq<char>>,
)
    ensures
        parse_matches_spec(m, voter_arg, out) matches Some((m1, Ok(()))) ==> match out {
            Some(o) => m1.dom().contains("out"@) && m1["out"@] == ValueView::Str(o),
            None => (m1.dom().contains("out"@) == m.dom().contains("out"@)) && (m.dom().contains("out"@)
                ==> m1["out"@] == m["out"@]),
        },
        voter_arg is None ==> parse_matches_spec(m, voter_arg, out) matches Some((_, Ok(()))),
{
    reveal_strlit("out");
    reveal_strlit("voter");
    reveal_strlit("voter::owner_id");
    reveal_strlit("voter::poll_id");
    reveal_strlit("voter::chat_id");
    reveal_strlit("voter::lang");
    assert("out"@.len() != "voter"@.len());
    assert("out"@.len() != "voter::owner_id"@.len());
    assert("out"@.len() != "voter::poll_id"@.len());
    assert("out"@.len() != "voter::chat_id"@.len());
    assert("out"@.len() != "voter::lang"@.len());
}

/// The same for a whole run's configuration: once it is read without error,
/// a given `--out` file is the `out` setting.
pub proof fn law_parse_out_option(
    m: Map<Seq<char>, ValueView>,
    config: Seq<char>,
    text: Option<Seq<char>>,
    voter_arg: Option<Seq<char>>,
    o: Seq<char>,
)
    ensures
        parse_spec(m, config, text, voter_arg, Some(o)) matches Some((m1, Ok(()))) ==> m1.dom().contains(
            "out"@,
        ) && m1["out"@] == ValueView::Str(o),
{
    match parse_yaml_spec(m, config, text) {
        Some((m1, Ok(()))) => {
            law_out_option(m1, voter_arg, Some(o));
        },
        _ => {},
    }
}

} // verus!
