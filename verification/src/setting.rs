//! The command vocabulary: which words are commands, which shape each
//! command builds, and how its parameters are filled.
use crate::text::str_eq;
use crate::words::{word_views, Word, WordView};
use vstd::prelude::*;

verus! {

/// What a command builds.
#[derive(Clone, Copy, Debug, PartialEq, Eq, Structural)]
pub enum ShapeKind {
    Camera,
    Chart,
    Circle,
    Path,
    Rect,
}

/// A parameter that a command sets before it reads its inputs.
#[derive(Clone, Debug)]
pub struct DefaultValue {
    /// The name of the parameter.
    pub name: String,
    /// The value as one word.
    pub word: Word,
    /// The words of the value, for a parameter that takes several.
    pub parts: Vec<Word>,
}

/// The setting of one command.
#[derive(Clone, Debug)]
pub struct GraphicPartsSetting {
    pub use_elem: ShapeKind,
    pub default_values: Vec<DefaultValue>,
    pub input_params: Vec<String>,
}

/// A command word and its setting.
#[derive(Clone, Debug)]
pub struct Command {
    pub word: String,
    pub setting: GraphicPartsSetting,
}

/// The settings of a run.
#[derive(Clone, Debug)]
pub struct Settings {
    pub command_to_setting: Vec<Command>,
    pub initial_text: String,
}

/// A default as a value.
pub struct DefaultView {
    pub name: Seq<char>,
    pub word: WordView,
    pub parts: Seq<WordView>,
}

/// A setting as a value.
pub struct SettingView {
    pub use_elem: ShapeKind,
    pub default_values: Seq<DefaultView>,
    pub input_params: Seq<Seq<char>>,
}

/// A command as a value.
pub struct CommandView {
    pub word: Seq<char>,
    pub setting: SettingView,
}

/// The settings as a value.
pub struct SettingsView {
    pub command_to_setting: Seq<CommandView>,
    pub initial_text: Seq<char>,
}

impl View for DefaultValue {
    type V = DefaultView;

    open spec fn view(&self) -> DefaultView {
        DefaultView { name: self.name@, word: self.word@, parts: word_views(self.parts@) }
    }
}

impl View for GraphicPartsSetting {
    type V = SettingView;

    open spec fn view(&self) -> SettingView {
        SettingView {
            use_elem: self.use_elem,
            default_values: Seq::new(
                self.default_values@.len(),
                |i: int| self.default_values@[i]@,
            ),
            input_params: Seq::new(self.input_params@.len(), |i: int| self.input_params@[i]@),
        }
    }
}

impl View for Command {
    type V = CommandView;

    open spec fn view(&self) -> CommandView {
        CommandView { word: self.word@, setting: self.setting@ }
    }
}

impl View for Settings {
    type V = SettingsView;

    open spec fn view(&self) -> SettingsView {
        SettingsView {
            command_to_setting: Seq::new(
                self.command_to_setting@.len(),
                |i: int| self.command_to_setting@[i]@,
            ),
            initial_text: self.initial_text@,
        }
    }
}

/// The shape kind that a `useElem` names.
pub open spec fn shape_kind(name: Seq<char>) -> Option<ShapeKind> {
    if name == "camera"@ {
        Some(ShapeKind::Camera)
    } else if name == "chart"@ {
        Some(ShapeKind::Chart)
    } else if name == "circle"@ {
        Some(ShapeKind::Circle)
    } else if name == "path"@ {
        Some(ShapeKind::Path)
    } else if name == "rect"@ {
        Some(ShapeKind::Rect)
    } else {
        None
    }
}

/// The place of the first command with the given word, if there is one.
pub open spec fn find_command(commands: Seq<CommandView>, word: Seq<char>) -> Option<int>
    decreases commands.len(),
{
    if commands.len() == 0 {
        None
    } else if commands[0].word == word {
        Some(0)
    } else {
        match find_command(commands.drop_first(), word) {
            Some(i) => Some(i + 1),
            None => None,
        }
    }
}

/// `find_command` gives a place that holds the word, and no earlier place
/// does; it gives none only where no place holds the word.
pub proof fn lemma_find_command(commands: Seq<CommandView>, word: Seq<char>)
    ensures
        match find_command(commands, word) {
            Some(i) => 0 <= i < commands.len() && commands[i].word == word && forall|j: int|
                0 <= j < i ==> (#[trigger] commands[j]).word != word,
            None => forall|j: int| 0 <= j < commands.len() ==> (#[trigger] commands[j]).word != word,
        },
    decreases commands.len(),
{
    if commands.len() > 0 && commands[0].word != word {
        let rest = commands.drop_first();
        lemma_find_command(rest, word);
        match find_command(rest, word) {
            Some(i) => {
                assert forall|j: int| 0 <= j < i + 1 implies (#[trigger] commands[j]).word != word by {
                    if j > 0 {
                        assert(rest[j - 1].word != word);
                    }
                }
            },
            None => {
                assert forall|j: int| 0 <= j < commands.len() implies (#[trigger] commands[j]).word
                    != word by {
                    if j > 0 {
                        assert(rest[j - 1].word != word);
                    }
                }
            },
        }
    }
}

impl ShapeKind {
    /// The shape kind that a `useElem` names.
    pub fn from_name(name: &str) -> (r: Option<ShapeKind>)
        ensures
            r == shape_kind(name@),
    {
        if str_eq(name, "camera") {
            Some(ShapeKind::Camera)
        } else if str_eq(name, "chart") {
            Some(ShapeKind::Chart)
        } else if str_eq(name, "circle") {
            Some(ShapeKind::Circle)
        } else if str_eq(name, "path") {
            Some(ShapeKind::Path)
        } else if str_eq(name, "rect") {
            Some(ShapeKind::Rect)
        } else {
            None
        }
    }
}

impl Settings {
    /// The place of the setting of a command word.
    pub fn find(&self, word: &str) -> (r: Option<usize>)
        ensures
            match find_command(self@.command_to_setting, word@) {
                Some(i) => r == Some(i as usize) && 0 <= i < self.command_to_setting.len(),
                None => r is None,
            },
    {
        let mut i: usize = 0;
        while i < self.command_to_setting.len()
            invariant
                i <= self.command_to_setting.len(),
                forall|j: int| 0 <= j < i ==> (#[trigger] self@.command_to_setting[j]).word != word@,
            decreases self.command_to_setting.len() - i,
        {
            if str_eq(self.command_to_setting[i].word.as_str(), word) {
                proof {
                    lemma_find_command(self@.command_to_setting, word@);
                    assert(self@.command_to_setting[i as int].word == word@);
                }
                return Some(i);
            }
            assert(self@.command_to_setting[i as int].word != word@);
            i = i + 1;
        }
        proof {
            lemma_find_command(self@.command_to_setting, word@);
        }
        None
    }
}

} // verus!
