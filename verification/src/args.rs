//! The lab's command line.
use vstd::prelude::*;
use crate::frame::texts;
use crate::text::same_text;

verus! {

/// What the command line asks for.
#[derive(Debug, Clone, PartialEq, Eq)]
pub struct Options {
    /// Decode the source, say so and end.
    pub probe: bool,
    /// Run the chain path end to end and end.
    pub selftest: bool,
    /// The file to play.
    pub src: Option<String>,
    /// Where to write a picture of the rack.
    pub shot: Option<String>,
}

/// The values in [`Options`].
pub struct OptionsView {
    pub probe: bool,
    pub selftest: bool,
    pub src: Option<Seq<char>>,
    pub shot: Option<Seq<char>>,
}

/// A text that may be missing.
pub open spec fn text_in(s: Option<String>) -> Option<Seq<char>> {
    match s {
        Some(s) => Some(s@),
        None => None,
    }
}

impl View for Options {
    type V = OptionsView;

    open spec fn view(&self) -> OptionsView {
        OptionsView {
            probe: self.probe,
            selftest: self.selftest,
            src: text_in(self.src),
            shot: text_in(self.shot),
        }
    }
}

/// Whether an argument names the file to play, in the argument after it.
pub open spec fn is_src(arg: Seq<char>) -> bool {
    arg == "--src"@ || arg == "--wav"@
}

/// The file to play and the file for the picture, by the arguments from `a` on: a flag takes the
/// argument after it, whatever that is, and the last one given counts. A flag with nothing after
/// it, and any other argument, is passed over.
pub open spec fn files_from(
    argv: Seq<Seq<char>>,
    a: int,
    src: Option<Seq<char>>,
    shot: Option<Seq<char>>,
) -> (Option<Seq<char>>, Option<Seq<char>>)
    decreases argv.len() - a,
{
    if a < 0 || a >= argv.len() {
        (src, shot)
    } else if is_src(argv[a]) && a + 1 < argv.len() {
        files_from(argv, a + 2, Some(argv[a + 1]), shot)
    } else if argv[a] == "--shot"@ && a + 1 < argv.len() {
        files_from(argv, a + 2, src, Some(argv[a + 1]))
    } else {
        files_from(argv, a + 1, src, shot)
    }
}

/// What a command line asks for; its first word is the program's name.
pub open spec fn options_of(argv: Seq<Seq<char>>) -> OptionsView {
    let files = files_from(argv, 1, None, None);
    OptionsView {
        probe: argv.contains("--probe"@),
        selftest: argv.contains("--selftest"@),
        src: files.0,
        shot: files.1,
    }
}

fn has_arg(argv: &[String], arg: &str) -> (yes: bool)
    ensures
        yes == texts(argv@).contains(arg@),
{
    let mut i: usize = 0;
    while i < argv.len()
        invariant
            i <= argv@.len(),
            forall|k: int| 0 <= k < i ==> #[trigger] texts(argv@)[k] != arg@,
        decreases argv@.len() - i,
    {
        if same_text(argv[i].as_str(), arg) {
            assert(texts(argv@)[i as int] == arg@);
            return true;
        }
        i += 1;
    }
    false
}

/// Reads a command line.
pub fn parse_args(argv: &[String]) -> (options: Options)
    ensures
        options@ == options_of(texts(argv@)),
{
    let ghost words = texts(argv@);
    let probe: bool = has_arg(argv, "--probe");
    let selftest: bool = has_arg(argv, "--selftest");
    let mut src: Option<String> = None;
    let mut shot: Option<String> = None;
    let n: usize = argv.len();
    let mut a: usize = 1;
    while a < n
        invariant
            n == argv@.len(),
            words == texts(argv@),
            1 <= a,
            files_from(words, 1, None, None) == files_from(
                words,
                a as int,
                text_in(src),
                text_in(shot),
            ),
        decreases n - a,
    {
        let last: bool = a == n - 1;
        if !last && (same_text(argv[a].as_str(), "--src") || same_text(argv[a].as_str(), "--wav")) {
            src = Some(argv[a + 1].clone());
            a += 1;
        } else if !last && same_text(argv[a].as_str(), "--shot") {
            shot = Some(argv[a + 1].clone());
            a += 1;
        }
        a += 1;
    }
    Options { probe, selftest, src, shot }
}

/// The files that are played if the command line names none, under the project's root: the first
/// that is there. The user's own come before the clip that the project brings along.
pub fn default_source(i: usize) -> (file: Option<&'static str>)
    ensures
        match file {
            Some(f) => i < 5 && f@ == (if i == 0 {
                "test.mp3"@
            } else if i == 1 {
                "test.flac"@
            } else if i == 2 {
                "test.wav"@
            } else if i == 3 {
                "test.ogg"@
            } else {
                "sample/demo.wav"@
            }),
            None => i >= 5,
        },
{
    match i {
        0 => Some("test.mp3"),
        1 => Some("test.flac"),
        2 => Some("test.wav"),
        3 => Some("test.ogg"),
        4 => Some("sample/demo.wav"),
        _ => None,
    }
}

} // verus!
