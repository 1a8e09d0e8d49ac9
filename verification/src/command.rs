//! The words of the command line and the palettes that they stand for.

use crate::color::{quote_free, CSSColor};
use crate::text::same_text;
use vstd::prelude::*;
use vstd::string::StringExecFns;

verus! {

/// What the first word of the command line asks for: the usage text, a
/// gradient over one of the built-in palettes, or a gradient over colors
/// that follow on the command line.
#[derive(Debug, PartialEq)]
pub enum SubCmds {
    Help,
    Black([CSSColor; 1]),
    /// White and black.
    WB([CSSColor; 2]),
    Rainbow([CSSColor; 6]),
    /// Yellow, cyan, magenta.
    YCM([CSSColor; 3]),
    /// Like a skybox.
    Sky([CSSColor; 3]),
    Mint([CSSColor; 2]),
    Fire([CSSColor; 5]),
    Custom,
}

/// The palette of `black`.
pub open spec fn black() -> Seq<Seq<char>> {
    seq!["#000"@]
}

/// The palette of `wb`, from white to black.
pub open spec fn white_black() -> Seq<Seq<char>> {
    seq!["#fff"@, "#000"@]
}

/// The palette of `rainbow`: red, yellow, green, cyan, blue, magenta.
pub open spec fn rainbow() -> Seq<Seq<char>> {
    seq!["#f00"@, "#ff0"@, "#0f0"@, "#0ff"@, "#00f"@, "#f0f"@]
}

/// The palette of `ycm`: yellow, cyan, magenta.
pub open spec fn yellow_cyan_magenta() -> Seq<Seq<char>> {
    seq!["#ff0"@, "#0ff"@, "#f0f"@]
}

/// The palette of `sky`.
pub open spec fn sky() -> Seq<Seq<char>> {
    seq!["#00e"@, "#07e"@, "#0ff"@]
}

/// The palette of `mint`.
pub open spec fn mint() -> Seq<Seq<char>> {
    seq!["#fff"@, "#0e1"@]
}

/// The palette of `fire`.
pub open spec fn fire() -> Seq<Seq<char>> {
    seq!["#000"@, "#700"@, "#f70"@, "#ff0"@, "#fff"@]
}

/// Whether `text` is one of the words that ask for the usage text. The
/// last two are the information sign, with and without the selector that
/// makes it an emoji.
pub open spec fn asks_for_help(text: Seq<char>) -> bool {
    ||| text == "help"@
    ||| text == "HELP"@
    ||| text == "man"@
    ||| text == "/?"@
    ||| text == "❔"@
    ||| text == "❓"@
    ||| text == "\u{2139}\u{fe0f}"@
    ||| text == "\u{2139}"@
}

/// Whether `text` is a word for `command`, and `command` holds the palette
/// that belongs to the word.
pub open spec fn names(text: Seq<char>, command: SubCmds) -> bool {
    match command {
        SubCmds::Help => asks_for_help(text),
        SubCmds::Black(colors) => text == "black"@ && colors.deep_view() == black(),
        SubCmds::WB(colors) => (text == "wb"@ || text == "WB"@) && colors.deep_view()
            == white_black(),
        SubCmds::Rainbow(colors) => (text == "rainbow"@ || text == "🌈"@) && colors.deep_view()
            == rainbow(),
        SubCmds::YCM(colors) => (text == "ycm"@ || text == "YCM"@) && colors.deep_view()
            == yellow_cyan_magenta(),
        SubCmds::Sky(colors) => text == "sky"@ && colors.deep_view() == sky(),
        SubCmds::Mint(colors) => (text == "mint"@ || text == "Mint"@) && colors.deep_view()
            == mint(),
        SubCmds::Fire(colors) => (text == "fire"@ || text == "🔥"@) && colors.deep_view()
            == fire(),
        SubCmds::Custom => text == "custom"@,
    }
}

/// Whether `text` is a word for any command.
pub open spec fn is_name(text: Seq<char>) -> bool {
    ||| asks_for_help(text)
    ||| text == "black"@
    ||| text == "wb"@
    ||| text == "WB"@
    ||| text == "rainbow"@
    ||| text == "🌈"@
    ||| text == "ycm"@
    ||| text == "YCM"@
    ||| text == "sky"@
    ||| text == "mint"@
    ||| text == "Mint"@
    ||| text == "fire"@
    ||| text == "🔥"@
    ||| text == "custom"@
}

/// Makes a color of a text that is known to hold no double quote.
fn css_color_from_str(s: &str) -> (color: CSSColor)
    requires
        quote_free(s@),
    ensures
        color@ == s@,
{
    match CSSColor::new(String::from_str(s)) {
        Ok(color) => color,
        Err(_) => vstd::pervasive::unreached(),
    }
}

/// The colors of the built-in palettes hold no double quote.
proof fn lemma_palette_colors()
    ensures
        quote_free("#000"@),
        quote_free("#fff"@),
        quote_free("#f00"@),
        quote_free("#ff0"@),
        quote_free("#0f0"@),
        quote_free("#0ff"@),
        quote_free("#00f"@),
        quote_free("#f0f"@),
        quote_free("#00e"@),
        quote_free("#07e"@),
        quote_free("#0e1"@),
        quote_free("#700"@),
        quote_free("#f70"@),
{
    reveal_strlit("#000");
    reveal_strlit("#fff");
    reveal_strlit("#f00");
    reveal_strlit("#ff0");
    reveal_strlit("#0f0");
    reveal_strlit("#0ff");
    reveal_strlit("#00f");
    reveal_strlit("#f0f");
    reveal_strlit("#00e");
    reveal_strlit("#07e");
    reveal_strlit("#0e1");
    reveal_strlit("#700");
    reveal_strlit("#f70");
}

impl SubCmds {
    /// Reads the first word of the command line. A word for a palette gives
    /// the command with that palette; any other text but the words for
    /// `Help` and `Custom` is refused. Words are taken as they are written:
    /// `wb` and `WB` are words, `Wb` is none.
    pub fn from_str(input: &str) -> (parsed: Result<Self, ()>)
        ensures
            match parsed {
                Ok(command) => names(input@, command),
                Err(_) => !is_name(input@),
            },
    {
        proof {
            lemma_palette_colors();
        }
        if same_text(input, "help") || same_text(input, "HELP") || same_text(input, "man")
            || same_text(input, "/?") || same_text(input, "❔") || same_text(input, "❓")
            || same_text(input, "\u{2139}\u{fe0f}") || same_text(input, "\u{2139}") {
            Ok(SubCmds::Help)
        } else if same_text(input, "black") {
            let colors = [css_color_from_str("#000")];
            assert(colors.deep_view() =~= black());
            Ok(SubCmds::Black(colors))
        } else if same_text(input, "wb") || same_text(input, "WB") {
            let colors = [css_color_from_str("#fff"), css_color_from_str("#000")];
            assert(colors.deep_view() =~= white_black());
            Ok(SubCmds::WB(colors))
        } else if same_text(input, "rainbow") || same_text(input, "🌈") {
            let colors = [
                css_color_from_str("#f00"),
                css_color_from_str("#ff0"),
                css_color_from_str("#0f0"),
                css_color_from_str("#0ff"),
                css_color_from_str("#00f"),
                css_color_from_str("#f0f"),
            ];
            assert(colors.deep_view() =~= rainbow());
            Ok(SubCmds::Rainbow(colors))
        } else if same_text(input, "ycm") || same_text(input, "YCM") {
            let colors = [
                css_color_from_str("#ff0"),
                css_color_from_str("#0ff"),
                css_color_from_str("#f0f"),
            ];
            assert(colors.deep_view() =~= yellow_cyan_magenta());
            Ok(SubCmds::YCM(colors))
        } else if same_text(input, "sky") {
            let colors = [
                css_color_from_str("#00e"),
                css_color_from_str("#07e"),
                css_color_from_str("#0ff"),
            ];
            assert(colors.deep_view() =~= sky());
            Ok(SubCmds::Sky(colors))
        } else if same_text(input, "mint") || same_text(input, "Mint") {
            let colors = [css_color_from_str("#fff"), css_color_from_str("#0e1")];
            assert(colors.deep_view() =~= mint());
            Ok(SubCmds::Mint(colors))
        } else if same_text(input, "fire") || same_text(input, "🔥") {
            let colors = [
                css_color_from_str("#000"),
                css_color_from_str("#700"),
                css_color_from_str("#f70"),
                css_color_from_str("#ff0"),
                css_color_from_str("#fff"),
            ];
            assert(colors.deep_view() =~= fire());
            Ok(SubCmds::Fire(colors))
        } else if same_text(input, "custom") {
            Ok(SubCmds::Custom)
        } else {
            Err(())
        }
    }
}

impl core::str::FromStr for SubCmds {
    type Err = ();

    /// Reads a command as [`SubCmds::from_str`] does.
    fn from_str(input: &str) -> (parsed: Result<Self, ()>)
        ensures
            match parsed {
                Ok(command) => names(input@, command),
                Err(_) => !is_name(input@),
            },
    {
        SubCmds::from_str(input)
    }
}

/// Only the words for a command name one: a text that names a command is
/// never refused, and a text that is refused names none.
pub proof fn lemma_names_are_names(text: Seq<char>, command: SubCmds)
    requires
        names(text, command),
    ensures
        is_name(text),
{
}

/// No word stands for two commands: where a text names two commands, both
/// are the same kind of command, and so hold the same palette.
pub proof fn lemma_word_names_one_command(text: Seq<char>, first: SubCmds, second: SubCmds)
    requires
        names(text, first),
        names(text, second),
    ensures
        first is Help <==> second is Help,
        first is Black <==> second is Black,
        first is WB <==> second is WB,
        first is Rainbow <==> second is Rainbow,
        first is YCM <==> second is YCM,
        first is Sky <==> second is Sky,
        first is Mint <==> second is Mint,
        first is Fire <==> second is Fire,
        first is Custom <==> second is Custom,
{
    reveal_strlit("help");
    reveal_strlit("HELP");
    reveal_strlit("man");
    reveal_strlit("/?");
    reveal_strlit("❔");
    reveal_strlit("❓");
    reveal_strlit("\u{2139}\u{fe0f}");
    reveal_strlit("\u{2139}");
    reveal_strlit("black");
    reveal_strlit("wb");
    reveal_strlit("WB");
    reveal_strlit("rainbow");
    reveal_strlit("🌈");
    reveal_strlit("ycm");
    reveal_strlit("YCM");
    reveal_strlit("sky");
    reveal_strlit("mint");
    reveal_strlit("Mint");
    reveal_strlit("fire");
    reveal_strlit("🔥");
    reveal_strlit("custom");
    // Two words for different commands differ in their length or in their
    // first character.
    assert(text.len() > 0);
    let initial = text[0];
}

} // verus!
