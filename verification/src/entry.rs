//! What the native entry points make of the values that the host hands them.

use crate::json::{
    JsonView, json_text, other_documents_give_no_pairs, pair_arrays_give_their_pairs,
    parse_string_pairs, parse_strings, string_arrays_give_their_strings, string_list, string_pairs,
    text_pairs,
};
use crate::text::{pairs, texts};
use vstd::prelude::*;
use vstd::string::*;

verus! {

// ---------------------------------------------------------------------------
// Numbers
// ---------------------------------------------------------------------------

/// The object behind a handle: none behind zero.
pub fn live_handle(handle: i64) -> (live: Option<i64>)
    ensures
        live == (if handle == 0 {
            None
        } else {
            Some(handle)
        }),
{
    if handle == 0 {
        None
    } else {
        Some(handle)
    }
}

/// Whether a flag of the host is set.
pub fn flag(value: u8) -> (set: bool)
    ensures
        set == (value != 0),
{
    value != 0
}

/// The low sixteen bits of a number, as a port or a terminal dimension.
pub fn low_u16(n: i32) -> (low: u16)
    ensures
        low == n as int % 0x1_0000,
{
    let u = #[verifier::truncate]
    (n as u32);
    assert(n >= 0 ==> u == n) by (bit_vector)
        requires
            u == n as u32,
    ;
    assert(n < 0 ==> u == n + 0x1_0000_0000) by (bit_vector)
        requires
            u == n as u32,
    ;
    assert(u as u16 == u % 0x1_0000) by (bit_vector);
    #[verifier::truncate]
    (u as u16)
}

/// The low eight bits of a number, as a colour channel.
pub fn low_u8(n: i32) -> (low: u8)
    ensures
        low == n as int % 0x100,
{
    let wide = low_u16(n);
    assert(wide as u8 == wide % 0x100) by (bit_vector);
    #[verifier::truncate]
    (wide as u8)
}

/// The low sixteen bits of a number, read as a signed number.
pub fn low_i16(n: i32) -> (low: i16)
    ensures
        low as int % 0x1_0000 == n as int % 0x1_0000,
{
    let wide = low_u16(n);
    let low = #[verifier::truncate]
    (wide as i16);
    assert(wide < 0x8000 ==> low == wide) by (bit_vector)
        requires
            low == wide as i16,
    ;
    assert(wide >= 0x8000 ==> low == wide - 0x1_0000) by (bit_vector)
        requires
            low == wide as i16,
    ;
    low
}

// ---------------------------------------------------------------------------
// Server configuration
// ---------------------------------------------------------------------------

/// How a tool server is set up.
#[derive(Debug)]
pub struct ServerConfig {
    pub port_min: u16,
    pub port_max: u16,
    /// The port to try first.
    pub preferred_port: Option<u16>,
    /// The token to use in place of a fresh one.
    pub auth_token: Option<String>,
}

/// Sets up a tool server. A preferred port that is not positive means that there is none.
pub fn server_config(
    port_min: i32,
    port_max: i32,
    preferred_port: i32,
    auth_token: Option<String>,
) -> (config: ServerConfig)
    ensures
        config.port_min == port_min as int % 0x1_0000,
        config.port_max == port_max as int % 0x1_0000,
        config.preferred_port is Some <==> preferred_port > 0,
        preferred_port > 0 ==> config.preferred_port->0 == preferred_port as int % 0x1_0000,
        config.auth_token == auth_token,
{
    ServerConfig {
        port_min: low_u16(port_min),
        port_max: low_u16(port_max),
        preferred_port: if preferred_port > 0 {
            Some(low_u16(preferred_port))
        } else {
            None
        },
        auth_token,
    }
}

// ---------------------------------------------------------------------------
// Commands
// ---------------------------------------------------------------------------

/// A command as the host describes it.
#[derive(Debug)]
pub struct LaunchArguments {
    pub cmd: String,
    pub args: Vec<String>,
    pub extra_env: Vec<(String, String)>,
    pub cwd: String,
}

/// The characters of a string of the host: none where it could not be read.
pub open spec fn text_or_empty(text: Option<String>) -> Seq<char> {
    match text {
        Some(s) => s@,
        None => Seq::empty(),
    }
}

/// The items of a list that may be missing.
pub open spec fn list_or_empty<T>(list: Option<Seq<T>>) -> Seq<T> {
    match list {
        Some(items) => items,
        None => Seq::empty(),
    }
}

fn or_empty(text: Option<String>) -> (s: String)
    ensures
        s@ == text_or_empty(text),
{
    match text {
        Some(s) => s,
        None => String::new(),
    }
}

/// The arguments of a command: none where they could not be parsed.
pub fn arguments_or_none(list: Option<Vec<String>>) -> (args: Vec<String>)
    ensures
        texts(args@) == match list {
            Some(strings) => texts(strings@),
            None => Seq::empty(),
        },
{
    match list {
        Some(strings) => strings,
        None => {
            let args: Vec<String> = Vec::new();
            assert(texts(args@) =~= Seq::empty());
            args
        },
    }
}

/// The variables of a command, name before value: none where they could not be parsed.
pub fn variables_or_none(list: Option<Vec<[String; 2]>>) -> (env: Vec<(String, String)>)
    ensures
        pairs(env@) == match list {
            Some(raw) => text_pairs(raw@),
            None => Seq::empty(),
        },
{
    let mut env: Vec<(String, String)> = Vec::new();
    assert(pairs(env@) =~= Seq::empty());
    match list {
        Some(raw) => {
            let ghost wanted = text_pairs(raw@);
            let mut i: usize = 0;
            while i < raw.len()
                invariant
                    i <= raw@.len(),
                    wanted == text_pairs(raw@),
                    pairs(env@) == wanted.take(i as int),
                decreases raw@.len() - i,
            {
                let ghost so_far = env@;
                let pair: &[String; 2] = &raw[i];
                env.push((pair[0].clone(), pair[1].clone()));
                assert(pairs(env@) =~= pairs(so_far).push(wanted[i as int]));
                assert(wanted.take(i + 1) =~= wanted.take(i as int).push(wanted[i as int]));
                i += 1;
            }
            assert(wanted.take(raw@.len() as int) =~= wanted);
        },
        None => {},
    }
    env
}

/// Reads the description of a command: its arguments are a JSON array of strings, and its variables
/// a JSON array of pairs of strings. What is missing or is not of this form counts as empty.
pub fn launch_arguments(
    cmd: Option<String>,
    args_json: Option<String>,
    extra_env_json: Option<String>,
    cwd: Option<String>,
) -> (launch: LaunchArguments)
    ensures
        launch.cmd@ == text_or_empty(cmd),
        texts(launch.args@) == list_or_empty(string_list(json_text(text_or_empty(args_json)))),
        pairs(launch.extra_env@) == list_or_empty(
            string_pairs(json_text(text_or_empty(extra_env_json))),
        ),
        launch.cwd@ == text_or_empty(cwd),
{
    let args_text = or_empty(args_json);
    let env_text = or_empty(extra_env_json);
    LaunchArguments {
        cmd: or_empty(cmd),
        args: arguments_or_none(parse_strings(args_text.as_str())),
        extra_env: variables_or_none(parse_string_pairs(env_text.as_str())),
        cwd: or_empty(cwd),
    }
}

// ---------------------------------------------------------------------------
// Proxies and variables
// ---------------------------------------------------------------------------

/// The proxy settings that take the place of those of the environment.
#[derive(Debug)]
pub struct ProxyOverrides {
    pub http: Option<String>,
    pub https: Option<String>,
    pub no_proxy: Option<String>,
}

/// A setting that is given and not empty.
pub open spec fn given(setting: Option<String>) -> Option<String> {
    match setting {
        Some(s) => if s@.len() > 0 {
            Some(s)
        } else {
            None
        },
        None => None,
    }
}

fn if_given(setting: Option<String>) -> (kept: Option<String>)
    ensures
        kept == given(setting),
{
    match setting {
        Some(s) => if s.as_str().is_empty() {
            None
        } else {
            Some(s)
        },
        None => None,
    }
}

/// The proxy settings of the host. An empty setting counts as none.
pub fn proxy_overrides(
    http: Option<String>,
    https: Option<String>,
    no_proxy: Option<String>,
) -> (overrides: ProxyOverrides)
    ensures
        overrides.http == given(http),
        overrides.https == given(https),
        overrides.no_proxy == given(no_proxy),
{
    ProxyOverrides {
        http: if_given(http),
        https: if_given(https),
        no_proxy: if_given(no_proxy),
    }
}

/// A variable in the form `NAME=VALUE`.
pub open spec fn entry(variable: (Seq<char>, Seq<char>)) -> Seq<char> {
    variable.0 + "="@ + variable.1
}

/// Variables in the form `NAME=VALUE`, in order.
pub open spec fn entries(variables: Seq<(Seq<char>, Seq<char>)>) -> Seq<Seq<char>> {
    Seq::new(variables.len(), |i: int| entry(variables[i]))
}

/// Writes variables in the form `NAME=VALUE`, in order.
pub fn env_entries(variables: &Vec<(String, String)>) -> (list: Vec<String>)
    ensures
        texts(list@) == entries(pairs(variables@)),
{
    let ghost wanted = entries(pairs(variables@));
    let mut list: Vec<String> = Vec::new();
    let mut i: usize = 0;
    assert(texts(list@) =~= wanted.take(0));
    while i < variables.len()
        invariant
            i <= variables@.len(),
            wanted == entries(pairs(variables@)),
            texts(list@) == wanted.take(i as int),
        decreases variables@.len() - i,
    {
        let ghost so_far = list@;
        let mut line = variables[i].0.clone();
        line.append("=");
        line.append(variables[i].1.as_str());
        list.push(line);
        assert(texts(list@) =~= texts(so_far).push(wanted[i as int]));
        assert(wanted.take(i + 1) =~= wanted.take(i as int).push(wanted[i as int]));
        i += 1;
    }
    assert(wanted.take(variables@.len() as int) =~= wanted);
    list
}

/// An entry tells which variable it is: entries of variables whose names hold no equals sign are
/// the same only where the variables are.
pub proof fn entries_are_unambiguous(a: (Seq<char>, Seq<char>), b: (Seq<char>, Seq<char>))
    requires
        !a.0.contains('='),
        !b.0.contains('='),
        entry(a) == entry(b),
    ensures
        a == b,
{
    reveal_strlit("=");
    let (m, n) = (a.0.len() as int, b.0.len() as int);
    assert(entry(a)[m] == '=');
    assert(entry(b)[n] == '=');
    if m < n {
        assert(entry(b)[m] == b.0[m]);
    } else if n < m {
        assert(entry(a)[n] == a.0[n]);
    }
    assert(a.0 =~= entry(a).take(m));
    assert(b.0 =~= entry(b).take(n));
    assert(a.1 =~= entry(a).skip(m + 1));
    assert(b.1 =~= entry(b).skip(n + 1));
}

// ---------------------------------------------------------------------------
// Console colours
// ---------------------------------------------------------------------------

/// A colour: red, green and blue.
#[derive(Debug, Clone, Copy, PartialEq, Eq, Structural)]
pub struct Color {
    pub r: u8,
    pub g: u8,
    pub b: u8,
}

/// A colour from the host's three channels, of which the low eight bits count.
pub fn color(r: i32, g: i32, b: i32) -> (c: Color)
    ensures
        c.r == r as int % 0x100,
        c.g == g as int % 0x100,
        c.b == b as int % 0x100,
{
    Color { r: low_u8(r), g: low_u8(g), b: low_u8(b) }
}

// ---------------------------------------------------------------------------
// Laws
// ---------------------------------------------------------------------------

/// A text of the host is taken as it is, and one that could not be read counts as empty.
pub proof fn unreadable_texts_count_as_empty(text: String)
    ensures
        text_or_empty(Some(text)) == text@,
        text_or_empty(None) == Seq::<char>::empty(),
{
}

/// The strings of a JSON array of strings are the arguments of a command, in order. A text that
/// holds no such array gives none.
pub proof fn arguments_are_the_strings_of_an_array(
    text: Seq<char>,
    strings: Seq<Seq<char>>,
    place: int,
)
    ensures
        json_text(text) == Some(
            JsonView::Array(Seq::new(strings.len(), |i: int| JsonView::Text(strings[i]))),
        ) ==> list_or_empty(string_list(json_text(text))) == strings,
        json_text(text) is None || !(json_text(text)->0 is Array) ==> list_or_empty(
            string_list(json_text(text)),
        ) == Seq::<Seq<char>>::empty(),
        json_text(text) is Some && json_text(text)->0 is Array && 0 <= place
            < json_text(text)->0->Array_0.len() && !(json_text(text)->0->Array_0[place] is Text)
            ==> list_or_empty(string_list(json_text(text))) == Seq::<Seq<char>>::empty(),
{
    string_arrays_give_their_strings(strings);
}

/// The pairs of a JSON array of arrays of two strings are the variables of a command, name before
/// value, in order. A text that holds no such array gives none.
pub proof fn variables_are_the_pairs_of_an_array(
    text: Seq<char>,
    list: Seq<(Seq<char>, Seq<char>)>,
    place: int,
)
    ensures
        json_text(text) == Some(
            JsonView::Array(
                Seq::new(
                    list.len(),
                    |i: int|
                        JsonView::Array(
                            seq![JsonView::Text(list[i].0), JsonView::Text(list[i].1)],
                        ),
                ),
            ),
        ) ==> list_or_empty(string_pairs(json_text(text))) == list,
        json_text(text) is None || !(json_text(text)->0 is Array) ==> list_or_empty(
            string_pairs(json_text(text)),
        ) == Seq::<(Seq<char>, Seq<char>)>::empty(),
        json_text(text) is Some && json_text(text)->0 is Array && 0 <= place
            < json_text(text)->0->Array_0.len() && (forall|a: Seq<char>, b: Seq<char>|
            json_text(text)->0->Array_0[place] != JsonView::Array(
                #[trigger] seq![JsonView::Text(a), JsonView::Text(b)],
            )) ==> list_or_empty(string_pairs(json_text(text))) == Seq::<
            (Seq<char>, Seq<char>),
        >::empty(),
{
    pair_arrays_give_their_pairs(list);
    let document = json_text(text);
    if document is None || !(document->0 is Array) {
        other_documents_give_no_pairs(document, place);
    } else if 0 <= place < document->0->Array_0.len() && (forall|a: Seq<char>, b: Seq<char>|
        document->0->Array_0[place] != JsonView::Array(
            #[trigger] seq![JsonView::Text(a), JsonView::Text(b)],
        )) {
        other_documents_give_no_pairs(document, place);
    }
}

/// A setting is kept exactly where it is given and not empty, and then as it is.
pub proof fn empty_settings_count_as_none(setting: Option<String>)
    ensures
        given(setting) is Some <==> setting is Some && setting->0@ != Seq::<char>::empty(),
        given(setting) is Some ==> given(setting) == setting,
{
    if setting is Some && setting->0@.len() == 0 {
        assert(setting->0@ =~= Seq::<char>::empty());
    }
}

/// There are as many entries as variables: none where there are no variables.
pub proof fn entries_are_as_many_as_variables(variables: Seq<(Seq<char>, Seq<char>)>)
    ensures
        entries(variables).len() == variables.len(),
{
}

/// There is one entry for each variable, in order: its name up to the first place after it, an
/// equals sign there, and then its value.
pub proof fn entries_hold_name_and_value(variables: Seq<(Seq<char>, Seq<char>)>, place: int)
    requires
        0 <= place < variables.len(),
    ensures
        entries(variables).len() == variables.len(),
        ({
            let (name, value) = variables[place];
            let written = entries(variables)[place];
            &&& written.len() == name.len() + 1 + value.len()
            &&& written.take(name.len() as int) == name
            &&& written[name.len() as int] == '='
            &&& written.skip(name.len() as int + 1) == value
        }),
{
    reveal_strlit("=");
    let (name, value) = variables[place];
    let written = entries(variables)[place];
    assert(written.take(name.len() as int) =~= name);
    assert(written.skip(name.len() as int + 1) =~= value);
}

} // verus!
