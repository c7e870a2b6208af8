//! Reading the settings from a JSON document.
//!
//! The document is an object. Its member `initialText` is a string or an
//! array of strings, which are joined by single spaces. Its member
//! `commands` is an object with one member for each command word: an
//! object with `useElem`, the name of a shape kind, and optionally
//! `defaults`, an object of parameter values, and `inputs`, an array of
//! parameter names. A default that is no string stands as its JSON text.
use crate::error::Error;
use crate::json::{
    items_of,
    json_items,
    json_members,
    json_parsed,
    json_string,
    json_text,
    member_views,
    members_of,
    parse,
    string_of,
    text_of_value,
};
use crate::number::Number;
use crate::setting::{
    shape_kind,
    Command,
    CommandView,
    DefaultValue,
    DefaultView,
    GraphicPartsSetting,
    Settings,
    SettingsView,
    ShapeKind,
};
use crate::text::{lemma_name_place_is, name_place, str_eq};
use crate::words::{lex, tokens, Word};
use vstd::prelude::*;

verus! {

/// A default as the document gives it: the name of the parameter and the
/// text of its value.
pub struct DefaultShape {
    pub name: Seq<char>,
    pub text: Seq<char>,
}

/// A command as the document gives it.
pub struct CommandShape {
    pub word: Seq<char>,
    pub use_elem: ShapeKind,
    pub defaults: Seq<DefaultShape>,
    pub inputs: Seq<Seq<char>>,
}

/// The settings as the document gives them.
pub struct SettingsShape {
    pub initial_text: Seq<char>,
    pub commands: Seq<CommandShape>,
}

/// The names of the members.
pub open spec fn member_names(members: Seq<(Seq<char>, serde_json::Value)>) -> Seq<Seq<char>> {
    Seq::new(members.len(), |i: int| members[i].0)
}

/// The value of the member with the given name.
pub open spec fn member(members: Seq<(Seq<char>, serde_json::Value)>, name: Seq<char>) -> Option<
    serde_json::Value,
> {
    match name_place(member_names(members), name) {
        Some(i) => Some(members[i].1),
        None => None,
    }
}

/// The first `n` values as strings, if all of them are strings.
pub open spec fn strings_of(items: Seq<serde_json::Value>, n: int) -> Option<Seq<Seq<char>>>
    decreases n,
{
    if n <= 0 || n > items.len() {
        Some(Seq::empty())
    } else {
        match (strings_of(items, n - 1), json_string(items[n - 1])) {
            (Some(before), Some(s)) => Some(before.push(s)),
            _ => None,
        }
    }
}

/// The first `n` texts, joined by single spaces.
pub open spec fn joined(texts: Seq<Seq<char>>, n: int) -> Seq<char>
    decreases n,
{
    if n <= 0 || n > texts.len() {
        Seq::empty()
    } else if n == 1 {
        texts[0]
    } else {
        joined(texts, n - 1) + seq![' '] + texts[n - 1]
    }
}

/// The initial text of the document: empty where there is none.
pub open spec fn initial_text_of(members: Seq<(Seq<char>, serde_json::Value)>) -> Result<
    Seq<char>,
    Error,
> {
    match member(members, "initialText"@) {
        None => Ok(Seq::empty()),
        Some(v) => match json_string(v) {
            Some(s) => Ok(s),
            None => match json_items(v) {
                None => Err(Error::InitialTextShape),
                Some(items) => match strings_of(items, items.len() as int) {
                    Some(texts) => Ok(joined(texts, texts.len() as int)),
                    None => Err(Error::InitialTextShape),
                },
            },
        },
    }
}

/// The text of a default: the string itself, or the JSON text of a value
/// that is no string.
pub open spec fn default_text(v: serde_json::Value) -> Seq<char> {
    match json_string(v) {
        Some(s) => s,
        None => json_text(v),
    }
}

/// The defaults of a command: none where the member is missing.
pub open spec fn defaults_of(members: Seq<(Seq<char>, serde_json::Value)>) -> Result<
    Seq<DefaultShape>,
    Error,
> {
    match member(members, "defaults"@) {
        None => Ok(Seq::empty()),
        Some(v) => match json_members(v) {
            None => Err(Error::MalformedSettings),
            Some(ms) => Ok(
                Seq::new(ms.len(), |i: int| DefaultShape { name: ms[i].0, text: default_text(ms[i].1) }),
            ),
        },
    }
}

/// The inputs of a command: none where the member is missing.
pub open spec fn inputs_of(members: Seq<(Seq<char>, serde_json::Value)>) -> Result<
    Seq<Seq<char>>,
    Error,
> {
    match member(members, "inputs"@) {
        None => Ok(Seq::empty()),
        Some(v) => match json_items(v) {
            None => Err(Error::MalformedSettings),
            Some(items) => match strings_of(items, items.len() as int) {
                Some(texts) => Ok(texts),
                None => Err(Error::MalformedSettings),
            },
        },
    }
}

/// The shape kind of a command.
pub open spec fn use_elem_of(members: Seq<(Seq<char>, serde_json::Value)>) -> Result<ShapeKind, Error> {
    match member(members, "useElem"@) {
        None => Err(Error::MalformedSettings),
        Some(v) => match json_string(v) {
            None => Err(Error::MalformedSettings),
            Some(s) => match shape_kind(s) {
                Some(k) => Ok(k),
                None => Err(Error::UnknownElem),
            },
        },
    }
}

/// A command of the document.
pub open spec fn command_shape(word: Seq<char>, v: serde_json::Value) -> Result<CommandShape, Error> {
    match json_members(v) {
        None => Err(Error::MalformedSettings),
        Some(ms) => match use_elem_of(ms) {
            Err(e) => Err(e),
            Ok(use_elem) => match defaults_of(ms) {
                Err(e) => Err(e),
                Ok(defaults) => match inputs_of(ms) {
                    Err(e) => Err(e),
                    Ok(inputs) => Ok(CommandShape { word, use_elem, defaults, inputs }),
                },
            },
        },
    }
}

/// The first `n` commands of the document; the first that is at fault
/// decides.
pub open spec fn command_shapes(members: Seq<(Seq<char>, serde_json::Value)>, n: int) -> Result<
    Seq<CommandShape>,
    Error,
>
    decreases n,
{
    if n <= 0 || n > members.len() {
        Ok(Seq::empty())
    } else {
        match command_shapes(members, n - 1) {
            Err(e) => Err(e),
            Ok(before) => match command_shape(members[n - 1].0, members[n - 1].1) {
                Err(e) => Err(e),
                Ok(c) => Ok(before.push(c)),
            },
        }
    }
}

/// The settings of a document.
pub open spec fn settings_shape(doc: serde_json::Value) -> Result<SettingsShape, Error> {
    match json_members(doc) {
        None => Err(Error::MalformedSettings),
        Some(ms) => match initial_text_of(ms) {
            Err(e) => Err(e),
            Ok(initial_text) => match member(ms, "commands"@) {
                None => Ok(SettingsShape { initial_text, commands: Seq::empty() }),
                Some(c) => match json_members(c) {
                    None => Err(Error::MalformedSettings),
                    Some(cs) => match command_shapes(cs, cs.len() as int) {
                        Err(e) => Err(e),
                        Ok(commands) => Ok(SettingsShape { initial_text, commands }),
                    },
                },
            },
        },
    }
}

/// The settings of a text: the text must be a JSON document.
pub open spec fn settings_shape_of_text(text: Seq<char>) -> Result<SettingsShape, Error> {
    match json_parsed(text) {
        None => Err(Error::MalformedSettings),
        Some(doc) => settings_shape(doc),
    }
}

/// The default holds the name and the text that the document gives, and
/// the words of the text.
pub open spec fn default_agrees(d: DefaultView, s: DefaultShape) -> bool {
    &&& d.name == s.name
    &&& d.word.text == s.text
    &&& Seq::new(d.parts.len(), |i: int| d.parts[i].text) == tokens(s.text)
}

/// The defaults hold what the document gives, one for one.
pub open spec fn defaults_agree(ds: Seq<DefaultView>, ss: Seq<DefaultShape>) -> bool {
    &&& ds.len() == ss.len()
    &&& forall|j: int| 0 <= j < ds.len() ==> default_agrees(#[trigger] ds[j], ss[j])
}

/// The command holds what the document gives.
pub open spec fn command_agrees(c: CommandView, s: CommandShape) -> bool {
    &&& c.word == s.word
    &&& c.setting.use_elem == s.use_elem
    &&& c.setting.input_params == s.inputs
    &&& defaults_agree(c.setting.default_values, s.defaults)
}

/// The settings hold what the document gives.
pub open spec fn settings_agree(sv: SettingsView, shape: SettingsShape) -> bool {
    &&& sv.initial_text == shape.initial_text
    &&& sv.command_to_setting.len() == shape.commands.len()
    &&& forall|i: int|
        0 <= i < sv.command_to_setting.len() ==> command_agrees(
            #[trigger] sv.command_to_setting[i],
            shape.commands[i],
        )
}

/// The number of the word is what the reader gave for its text.
pub open spec fn word_read<F: Fn(&String) -> Option<Number>>(w: &Word, read: &F) -> bool {
    read.ensures((&w.text,), w.number)
}

/// The numbers of a default are what the reader gave.
pub open spec fn default_read<F: Fn(&String) -> Option<Number>>(d: &DefaultValue, read: &F) -> bool {
    &&& word_read(&d.word, read)
    &&& forall|i: int| 0 <= i < d.parts@.len() ==> word_read(#[trigger] &d.parts@[i], read)
}

/// The numbers of the defaults are what the reader gave.
pub open spec fn defaults_read<F: Fn(&String) -> Option<Number>>(ds: Seq<DefaultValue>, read: &F) -> bool {
    forall|j: int| 0 <= j < ds.len() ==> default_read(#[trigger] &ds[j], read)
}

/// Every number in the settings is what the reader gave for its text.
pub open spec fn settings_read<F: Fn(&String) -> Option<Number>>(s: &Settings, read: &F) -> bool {
    forall|i: int|
        0 <= i < s.command_to_setting@.len() ==> defaults_read(
            (#[trigger] s.command_to_setting@[i]).setting.default_values@,
            read,
        )
}

/// The value of the member with the given name.
pub fn find_member<'a>(members: &Vec<(String, &'a serde_json::Value)>, name: &str) -> (r: Option<
    &'a serde_json::Value,
>)
    ensures
        match r {
            Some(v) => member(member_views(members@), name@) == Some(*v),
            None => member(member_views(members@), name@) is None,
        },
{
    let ghost names = member_names(member_views(members@));
    let mut i: usize = 0;
    while i < members.len()
        invariant
            i <= members.len(),
            names == member_names(member_views(members@)),
            forall|j: int| 0 <= j < i ==> #[trigger] names[j] != name@,
        decreases members.len() - i,
    {
        if str_eq(members[i].0.as_str(), name) {
            proof {
                lemma_name_place_is(names, name@, i as int);
            }
            return Some(members[i].1);
        }
        i = i + 1;
    }
    proof {
        lemma_name_place_is(names, name@, i as int);
    }
    None
}

/// The values as strings, if all of them are strings.
pub fn strings_from(items: &Vec<&serde_json::Value>) -> (r: Option<Vec<String>>)
    ensures
        match strings_of(crate::json::item_views(items@), items.len() as int) {
            Some(texts) => r is Some && crate::words::texts(r->0@) == texts,
            None => r is None,
        },
{
    let ghost views = crate::json::item_views(items@);
    let mut out: Vec<String> = Vec::new();
    let mut i: usize = 0;
    assert(crate::words::texts(out@) =~= Seq::<Seq<char>>::empty());
    while i < items.len()
        invariant
            i <= items.len(),
            views == crate::json::item_views(items@),
            strings_of(views, i as int) == Some(crate::words::texts(out@)),
        decreases items.len() - i,
    {
        let ghost before = crate::words::texts(out@);
        match string_of(items[i]) {
            Some(s) => {
                out.push(s);
                assert(crate::words::texts(out@) =~= before.push(s@));
            },
            None => {
                proof {
                    lemma_strings_of_fails(views, i as int + 1, items.len() as int);
                }
                return None;
            },
        }
        i = i + 1;
    }
    Some(out)
}

/// Once a value is no string, no longer run of values is all strings.
proof fn lemma_strings_of_fails(items: Seq<serde_json::Value>, n: int, m: int)
    requires
        0 < n <= m <= items.len(),
        strings_of(items, n) is None,
    ensures
        strings_of(items, m) is None,
    decreases m - n,
{
    if n < m {
        lemma_strings_of_fails(items, n, m - 1);
    }
}

/// The texts joined by single spaces.
pub fn join_texts(texts: &Vec<String>) -> (r: String)
    ensures
        r@ == joined(crate::words::texts(texts@), texts.len() as int),
{
    let ghost all = crate::words::texts(texts@);
    let mut out: String = String::new();
    let mut i: usize = 0;
    while i < texts.len()
        invariant
            i <= texts.len(),
            all == crate::words::texts(texts@),
            out@ == joined(all, i as int),
        decreases texts.len() - i,
    {
        assert(all[i as int] == texts[i as int]@);
        if i > 0 {
            out.append(" ");
            proof {
                reveal_strlit(" ");
                assert(" "@ =~= seq![' ']);
            }
        }
        out.append(texts[i].as_str());
        proof {
            if i == 0 {
                assert(out@ =~= all[0]);
            }
        }
        i = i + 1;
    }
    out
}

/// The initial text of the document.
pub fn read_initial_text(members: &Vec<(String, &serde_json::Value)>) -> (r: Result<String, Error>)
    ensures
        match initial_text_of(member_views(members@)) {
            Ok(t) => r is Ok && r->Ok_0@ == t,
            Err(e) => r is Err && r->Err_0 == e,
        },
{
    match find_member(members, "initialText") {
        None => Ok(String::new()),
        Some(v) => match string_of(v) {
            Some(s) => Ok(s),
            None => match items_of(v) {
                None => Err(Error::InitialTextShape),
                Some(items) => match strings_from(&items) {
                    Some(texts) => Ok(join_texts(&texts)),
                    None => Err(Error::InitialTextShape),
                },
            },
        },
    }
}

/// The defaults of a command, each with its words read.
pub fn read_defaults<F: Fn(&String) -> Option<Number>>(
    members: &Vec<(String, &serde_json::Value)>,
    read: &F,
) -> (r: Result<Vec<DefaultValue>, Error>)
    requires
        forall|s: &String| #[trigger] read.requires((s,)),
    ensures
        match defaults_of(member_views(members@)) {
            Ok(shape) => r is Ok && defaults_agree(
                Seq::new(r->Ok_0@.len(), |i: int| r->Ok_0@[i]@),
                shape,
            ) && defaults_read(r->Ok_0@, read),
            Err(e) => r is Err && r->Err_0 == e,
        },
{
    let v = match find_member(members, "defaults") {
        None => {
            return Ok(Vec::new());
        },
        Some(v) => v,
    };
    let ms = match members_of(v) {
        None => {
            return Err(Error::MalformedSettings);
        },
        Some(ms) => ms,
    };
    let ghost shape = defaults_of(member_views(members@))->Ok_0;
    let mut out: Vec<DefaultValue> = Vec::new();
    let mut i: usize = 0;
    while i < ms.len()
        invariant
            i <= ms.len(),
            out.len() == i,
            shape.len() == ms.len(),
            forall|j: int|
                0 <= j < ms.len() ==> #[trigger] shape[j] == (DefaultShape {
                    name: member_views(ms@)[j].0,
                    text: default_text(member_views(ms@)[j].1),
                }),
            forall|s: &String| #[trigger] read.requires((s,)),
            forall|j: int| 0 <= j < i ==> default_agrees((#[trigger] out[j])@, shape[j]),
            forall|j: int| 0 <= j < i ==> default_read(#[trigger] &out@[j], read),
        decreases ms.len() - i,
    {
        let value: &serde_json::Value = ms[i].1;
        let text: String = match string_of(value) {
            Some(s) => s,
            None => text_of_value(value),
        };
        assert(text@ == shape[i as int].text);
        let parts: Vec<Word> = lex(text.as_str(), read);
        let number: Option<Number> = read(&text);
        let d: DefaultValue = DefaultValue { name: ms[i].0.clone(), word: Word { text, number }, parts };
        assert(Seq::new(d@.parts.len(), |k: int| d@.parts[k].text) =~= tokens(shape[i as int].text));
        out.push(d);
        i = i + 1;
    }
    Ok(out)
}

/// The inputs of a command.
pub fn read_inputs(members: &Vec<(String, &serde_json::Value)>) -> (r: Result<Vec<String>, Error>)
    ensures
        match inputs_of(member_views(members@)) {
            Ok(texts) => r is Ok && crate::words::texts(r->Ok_0@) == texts,
            Err(e) => r is Err && r->Err_0 == e,
        },
{
    match find_member(members, "inputs") {
        None => {
            let out: Vec<String> = Vec::new();
            assert(crate::words::texts(out@) =~= Seq::<Seq<char>>::empty());
            Ok(out)
        },
        Some(v) => match items_of(v) {
            None => Err(Error::MalformedSettings),
            Some(items) => match strings_from(&items) {
                Some(texts) => Ok(texts),
                None => Err(Error::MalformedSettings),
            },
        },
    }
}

/// The shape kind of a command.
pub fn read_use_elem(members: &Vec<(String, &serde_json::Value)>) -> (r: Result<ShapeKind, Error>)
    ensures
        r == use_elem_of(member_views(members@)),
{
    match find_member(members, "useElem") {
        None => Err(Error::MalformedSettings),
        Some(v) => match string_of(v) {
            None => Err(Error::MalformedSettings),
            Some(s) => match ShapeKind::from_name(s.as_str()) {
                Some(k) => Ok(k),
                None => Err(Error::UnknownElem),
            },
        },
    }
}

/// A command of the document, with the words of its defaults read.
pub fn read_command<F: Fn(&String) -> Option<Number>>(word: String, v: &serde_json::Value, read: &F) -> (r:
    Result<Command, Error>)
    requires
        forall|s: &String| #[trigger] read.requires((s,)),
    ensures
        match command_shape(word@, *v) {
            Ok(shape) => r is Ok && command_agrees(r->Ok_0@, shape) && defaults_read(
                r->Ok_0.setting.default_values@,
                read,
            ),
            Err(e) => r is Err && r->Err_0 == e,
        },
{
    let ms = match members_of(v) {
        None => {
            return Err(Error::MalformedSettings);
        },
        Some(ms) => ms,
    };
    let use_elem: ShapeKind = match read_use_elem(&ms) {
        Ok(k) => k,
        Err(e) => {
            return Err(e);
        },
    };
    let default_values: Vec<DefaultValue> = match read_defaults(&ms, read) {
        Ok(d) => d,
        Err(e) => {
            return Err(e);
        },
    };
    let input_params: Vec<String> = match read_inputs(&ms) {
        Ok(i) => i,
        Err(e) => {
            return Err(e);
        },
    };
    let c: Command = Command { word, setting: GraphicPartsSetting { use_elem, default_values, input_params } };
    assert(c@.setting.input_params =~= crate::words::texts(input_params@));
    assert(c@.setting.default_values =~= Seq::new(default_values@.len(), |i: int| default_values@[i]@));
    Ok(c)
}

/// The settings of a document. `read` tells the number that a text
/// writes; it is asked for every default and for every word of a default.
pub fn settings_from_json<F: Fn(&String) -> Option<Number>>(doc: &serde_json::Value, read: &F) -> (r:
    Result<Settings, Error>)
    requires
        forall|s: &String| #[trigger] read.requires((s,)),
    ensures
        match settings_shape(*doc) {
            Ok(shape) => r is Ok && settings_agree(r->Ok_0@, shape) && settings_read(&r->Ok_0, read),
            Err(e) => r is Err && r->Err_0 == e,
        },
{
    let ms = match members_of(doc) {
        None => {
            return Err(Error::MalformedSettings);
        },
        Some(ms) => ms,
    };
    let initial_text: String = match read_initial_text(&ms) {
        Ok(t) => t,
        Err(e) => {
            return Err(e);
        },
    };
    let mut commands: Vec<Command> = Vec::new();
    match find_member(&ms, "commands") {
        None => {},
        Some(c) => {
            let cs = match members_of(c) {
                None => {
                    return Err(Error::MalformedSettings);
                },
                Some(cs) => cs,
            };
            let ghost views = member_views(cs@);
            let mut i: usize = 0;
            while i < cs.len()
                invariant
                    i <= cs.len(),
                    commands.len() == i,
                    views == member_views(cs@),
                    json_members(*doc) == Some(member_views(ms@)),
                    initial_text_of(member_views(ms@)) is Ok,
                    member(member_views(ms@), "commands"@) == Some(*c),
                    json_members(*c) == Some(views),
                    forall|s: &String| #[trigger] read.requires((s,)),
                    command_shapes(views, i as int) is Ok,
                    command_shapes(views, i as int)->Ok_0.len() == i,
                    forall|j: int|
                        0 <= j < i ==> command_agrees(
                            (#[trigger] commands[j])@,
                            command_shapes(views, i as int)->Ok_0[j],
                        ),
                    forall|j: int|
                        0 <= j < i ==> defaults_read(
                            (#[trigger] commands@[j]).setting.default_values@,
                            read,
                        ),
                decreases cs.len() - i,
            {
                let word: String = cs[i].0.clone();
                match read_command(word, cs[i].1, read) {
                    Ok(command) => {
                        commands.push(command);
                    },
                    Err(e) => {
                        proof {
                            lemma_command_shapes_fail(views, i as int + 1, cs.len() as int);
                        }
                        return Err(e);
                    },
                }
                i = i + 1;
            }
        },
    }
    let s: Settings = Settings { command_to_setting: commands, initial_text };
    Ok(s)
}

/// Once a command is at fault, it decides for every longer run of
/// commands.
proof fn lemma_command_shapes_fail(members: Seq<(Seq<char>, serde_json::Value)>, n: int, m: int)
    requires
        0 < n <= m <= members.len(),
        command_shapes(members, n) is Err,
    ensures
        command_shapes(members, m) == command_shapes(members, n),
    decreases m - n,
{
    if n < m {
        lemma_command_shapes_fail(members, n, m - 1);
    }
}

/// The settings that a text writes. `read` tells the number that a text
/// writes; it is asked for every default and for every word of a default.
pub fn load_settings<F: Fn(&String) -> Option<Number>>(text: &str, read: &F) -> (r: Result<
    Settings,
    Error,
>)
    requires
        forall|s: &String| #[trigger] read.requires((s,)),
    ensures
        match settings_shape_of_text(text@) {
            Ok(shape) => r is Ok && settings_agree(r->Ok_0@, shape) && settings_read(&r->Ok_0, read),
            Err(e) => r is Err && r->Err_0 == e,
        },
{
    match parse(text) {
        None => Err(Error::MalformedSettings),
        Some(doc) => settings_from_json(&doc, read),
    }
}

} // verus!
