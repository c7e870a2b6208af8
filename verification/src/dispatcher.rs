//! The command stream, word by word.
//!
//! `update` sets the clock from the word that follows it. Every other word
//! must be a command of the settings, and builds what its setting says from
//! the words that follow.
use crate::context::{later, Context};
use crate::error::Error;
use crate::number::Number;
use crate::setting::{find_command, lemma_find_command, SettingView, Settings, SettingsView, ShapeKind};
use crate::text::str_eq;
use crate::traits::{apply_defaults, initial_params, lemma_apply_inputs_advances};
use crate::vis_comps_creator::{command_result, CreatorView, VisCompsCreator};
use crate::words::{lex, read_number, tokens, word_views, Word, WordView};
use vstd::prelude::*;

verus! {

/// A rejection, and the place of the command word that it came from.
#[derive(Clone, Copy, Debug, PartialEq, Eq, Structural)]
pub struct Failure {
    pub error: Error,
    pub at: usize,
}

/// The clock after `update`.
pub open spec fn updated(ctx: Context, time: Number) -> Context {
    Context { current_time: time, max_time_ever: later(ctx.max_time_ever, time) }
}

/// A command never ends before the place at which it began.
pub proof fn lemma_command_advances(
    kind: ShapeKind,
    setting: SettingView,
    words: Seq<WordView>,
    pos: int,
    ctx: Context,
    cv: CreatorView,
)
    requires
        0 <= pos <= words.len(),
    ensures
        command_result(kind, setting, words, pos, ctx, cv) matches Ok((_, end)) ==> pos <= end
            <= words.len(),
{
    match apply_defaults(kind, initial_params(kind), setting.default_values, 0, ctx) {
        Ok(p) => {
            lemma_apply_inputs_advances(kind, p, setting.input_params, 0, words, pos, ctx);
        },
        Err(_) => {},
    }
}

/// How a run ends: the clock and the groups as the last command that was
/// accepted left them, and the refusal that stopped the run, if one did.
pub struct Outcome {
    pub ctx: Context,
    pub cv: CreatorView,
    pub failure: Option<Failure>,
}

/// What the words from `pos` on do to the clock and to the groups. The
/// first command that is refused stops the run, and leaves the clock and
/// the groups as they were before it.
pub open spec fn run_from(
    settings: SettingsView,
    words: Seq<WordView>,
    pos: int,
    ctx: Context,
    cv: CreatorView,
) -> Outcome
    decreases words.len() - pos,
{
    if pos < 0 || pos >= words.len() {
        Outcome { ctx, cv, failure: None }
    } else if words[pos].text == "update"@ {
        if pos + 1 >= words.len() {
            Outcome {
                ctx,
                cv,
                failure: Some(Failure { error: Error::MissingWord { input: 0 }, at: pos as usize }),
            }
        } else {
            match read_number(words[pos + 1], ctx) {
                Err(e) => Outcome { ctx, cv, failure: Some(Failure { error: e, at: pos as usize }) },
                Ok(time) => if !time.finite() {
                    Outcome {
                        ctx,
                        cv,
                        failure: Some(Failure { error: Error::NonFiniteTime, at: pos as usize }),
                    }
                } else {
                    run_from(settings, words, pos + 2, updated(ctx, time), cv)
                },
            }
        }
    } else {
        match find_command(settings.command_to_setting, words[pos].text) {
            None => Outcome {
                ctx,
                cv,
                failure: Some(Failure { error: Error::UnknownCommand, at: pos as usize }),
            },
            Some(i) => {
                let setting = settings.command_to_setting[i].setting;
                match command_result(setting.use_elem, setting, words, pos + 1, ctx, cv) {
                    Err(e) => Outcome { ctx, cv, failure: Some(Failure { error: e, at: pos as usize }) },
                    Ok((after, end)) => {
                        proof {
                            lemma_command_advances(setting.use_elem, setting, words, pos + 1, ctx, cv);
                        }
                        run_from(settings, words, end, ctx, after)
                    },
                }
            },
        }
    }
}

/// The text of a run: the initial text of the settings, a space, and the
/// input.
pub open spec fn stream_text(initial: Seq<char>, input: Seq<char>) -> Seq<char> {
    initial + seq![' '] + input
}

/// The words of a run: those of the initial text of the settings, then
/// those of the input, each with the number that `read` gives for it.
pub fn read_stream<F: Fn(&String) -> Option<Number>>(settings: &Settings, input: &str, read: &F) -> (words:
    Vec<Word>)
    requires
        forall|s: &String| #[trigger] read.requires((s,)),
    ensures
        words.len() == tokens(stream_text(settings@.initial_text, input@)).len(),
        forall|i: int|
            0 <= i < words.len() ==> (#[trigger] words[i]).text@ == tokens(
                stream_text(settings@.initial_text, input@),
            )[i] && read.ensures((&words[i].text,), words[i].number),
{
    let mut text: String = settings.initial_text.clone();
    text.append(" ");
    text.append(input);
    proof {
        reveal_strlit(" ");
        assert(" "@ =~= seq![' ']);
    }
    lex(text.as_str(), read)
}

/// Runs the command stream: sets the clock at each `update`, and lets each
/// command build what its setting says. Stops at the first command that is
/// refused, says which one it was, and leaves the clock and the groups as
/// the commands before it made them.
pub fn run(settings: &Settings, words: &Vec<Word>, ctx: &mut Context, creator: &mut VisCompsCreator) -> (r:
    Result<(), Failure>)
    ensures
        *final(ctx) == run_from(settings@, word_views(words@), 0, *old(ctx), old(creator)@).ctx,
        final(creator)@ == run_from(settings@, word_views(words@), 0, *old(ctx), old(creator)@).cv,
        r == match run_from(settings@, word_views(words@), 0, *old(ctx), old(creator)@).failure {
            None => Ok::<(), Failure>(()),
            Some(f) => Err(f),
        },
        old(creator).pending_well_formed() ==> final(creator).pending_well_formed(),
        old(creator)@.sound() ==> final(creator)@.sound(),
{
    let ghost all = word_views(words@);
    let ghost goal = run_from(settings@, all, 0, *ctx, creator@);
    let mut pos: usize = 0;
    while pos < words.len()
        invariant
            pos <= words.len(),
            all == word_views(words@),
            goal == run_from(settings@, all, 0, *old(ctx), old(creator)@),
            goal == run_from(settings@, all, pos as int, *ctx, creator@),
            old(creator).pending_well_formed() ==> creator.pending_well_formed(),
            old(creator)@.sound() ==> creator@.sound(),
        decreases words.len() - pos,
    {
        let at: usize = pos;
        let word: &Word = &words[pos];
        assert(all[pos as int] == word@);
        if str_eq(word.text.as_str(), "update") {
            if pos + 1 >= words.len() {
                return Err(Failure { error: Error::MissingWord { input: 0 }, at });
            }
            assert(all[pos + 1] == words[pos + 1]@);
            let time = match words[pos + 1].number_based_on(ctx) {
                Ok(t) => t,
                Err(e) => {
                    return Err(Failure { error: e, at });
                },
            };
            if !time.is_finite() {
                return Err(Failure { error: Error::NonFiniteTime, at });
            }
            ctx.update_time(time);
            pos = pos + 2;
        } else {
            let found = settings.find(word.text.as_str());
            proof {
                lemma_find_command(settings@.command_to_setting, word@.text);
            }
            let i: usize = match found {
                Some(i) => i,
                None => {
                    return Err(Failure { error: Error::UnknownCommand, at });
                },
            };
            let setting = &settings.command_to_setting[i].setting;
            assert(settings@.command_to_setting[i as int].setting == setting@);
            pos = pos + 1;
            let ghost begin = pos;
            let done = match setting.use_elem {
                ShapeKind::Chart => creator.add_line_datum_from(words, &mut pos, setting, ctx),
                ShapeKind::Camera => creator.add_camera_from(words, &mut pos, setting, ctx),
                ShapeKind::Circle => creator.add_circle_from(words, &mut pos, setting, ctx),
                ShapeKind::Path => creator.add_path_from(words, &mut pos, setting, ctx),
                ShapeKind::Rect => creator.add_rect_from(words, &mut pos, setting, ctx),
            };
            match done {
                Ok(()) => {
                    proof {
                        lemma_command_advances(
                            setting@.use_elem,
                            setting@,
                            all,
                            begin as int,
                            *ctx,
                            old(creator)@,
                        );
                    }
                },
                Err(e) => {
                    return Err(Failure { error: e, at });
                },
            }
        }
    }
    Ok(())
}

} // verus!
