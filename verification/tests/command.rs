use core::str::FromStr;
use sv3g::{generate, CSSColor, GradientType, SubCmds};

fn texts(colors: &[CSSColor]) -> Vec<String> {
    colors.iter().map(|color| color.to_string()).collect()
}

#[test]
fn many_words_ask_for_help() {
    for word in ["help", "HELP", "man", "/?", "❔", "❓", "ℹ️", "ℹ"] {
        assert_eq!(SubCmds::from_str(word), Ok(SubCmds::Help));
    }
    assert_eq!(SubCmds::from_str("\u{2139}\u{fe0f}"), Ok(SubCmds::Help));
    assert_eq!(SubCmds::from_str("\u{2139}"), Ok(SubCmds::Help));
}

#[test]
fn custom_takes_its_colors_from_elsewhere() {
    assert_eq!(SubCmds::from_str("custom"), Ok(SubCmds::Custom));
}

#[test]
fn black_is_a_single_color() {
    match SubCmds::from_str("black") {
        Ok(SubCmds::Black(colors)) => assert_eq!(texts(&colors), ["#000"]),
        other => panic!("{:?}", other),
    }
}

#[test]
fn wb_runs_from_white_to_black() {
    for word in ["wb", "WB"] {
        match SubCmds::from_str(word) {
            Ok(SubCmds::WB(colors)) => assert_eq!(texts(&colors), ["#fff", "#000"]),
            other => panic!("{:?}", other),
        }
    }
}

#[test]
fn rainbow_has_six_colors() {
    for word in ["rainbow", "🌈"] {
        match SubCmds::from_str(word) {
            Ok(SubCmds::Rainbow(colors)) => assert_eq!(
                texts(&colors),
                ["#f00", "#ff0", "#0f0", "#0ff", "#00f", "#f0f"]
            ),
            other => panic!("{:?}", other),
        }
    }
}

#[test]
fn ycm_is_yellow_cyan_magenta() {
    for word in ["ycm", "YCM"] {
        match SubCmds::from_str(word) {
            Ok(SubCmds::YCM(colors)) => assert_eq!(texts(&colors), ["#ff0", "#0ff", "#f0f"]),
            other => panic!("{:?}", other),
        }
    }
}

#[test]
fn sky_has_three_blues() {
    match SubCmds::from_str("sky") {
        Ok(SubCmds::Sky(colors)) => assert_eq!(texts(&colors), ["#00e", "#07e", "#0ff"]),
        other => panic!("{:?}", other),
    }
}

#[test]
fn mint_runs_from_white_to_green() {
    for word in ["mint", "Mint"] {
        match SubCmds::from_str(word) {
            Ok(SubCmds::Mint(colors)) => assert_eq!(texts(&colors), ["#fff", "#0e1"]),
            other => panic!("{:?}", other),
        }
    }
}

#[test]
fn fire_has_five_colors() {
    for word in ["fire", "🔥"] {
        match SubCmds::from_str(word) {
            Ok(SubCmds::Fire(colors)) => assert_eq!(
                texts(&colors),
                ["#000", "#700", "#f70", "#ff0", "#fff"]
            ),
            other => panic!("{:?}", other),
        }
    }
}

#[test]
fn other_words_are_refused() {
    for word in [
        "", " ", "Help", "hElP", "MAN", "?", "-h", "--help", "Black", "BLACK", "Wb", "wB",
        "Rainbow", "RAINBOW", "Ycm", "Sky", "SKY", "MINT", "Fire", "FIRE", "Custom", "CUSTOM",
        "custom ", " custom", "linear", "radial", "ℹ️ℹ", "\u{fe0f}", "🌈🌈", "wb\n",
    ] {
        assert_eq!(SubCmds::from_str(word), Err(()));
    }
}

#[test]
fn the_trait_reads_commands_as_the_method_does() {
    assert_eq!("help".parse::<SubCmds>(), Ok(SubCmds::Help));
    assert_eq!("nothing".parse::<SubCmds>(), Err(()));
    assert_eq!(
        <SubCmds as FromStr>::from_str("sky"),
        SubCmds::from_str("sky")
    );
}

#[test]
fn a_palette_makes_a_gradient() {
    let colors = match SubCmds::from_str("mint") {
        Ok(SubCmds::Mint(colors)) => colors,
        other => panic!("{:?}", other),
    };
    assert_eq!(
        generate(&GradientType::Linear, colors.to_vec()),
        "<?xml version=\"1.0\" encoding=\"utf-8\"?>\
         <svg xmlns=\"http://www.w3.org/2000/svg\">\
         <defs>\
         <linearGradient id=\"g\" gradientTransform=\"rotate(90)\">\
         <stop offset=\"0\" stop-color=\"#fff\"/>\
         <stop offset=\"1\" stop-color=\"#0e1\"/>\
         </linearGradient>\
         </defs>\
         <rect width=\"100%\" height=\"100%\" fill=\"url(#g)\"/>\
         </svg>"
    );
}
