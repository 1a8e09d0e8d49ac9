use sv3g::{generate, CSSColor, GradientType};

fn colors(texts: &[&str]) -> Vec<CSSColor> {
    texts
        .iter()
        .map(|text| CSSColor::new(text.to_string()).expect("a color without quotes"))
        .collect()
}

fn count(text: &str, part: &str) -> usize {
    text.matches(part).count()
}

#[test]
fn white_to_black_runs_from_top_to_bottom() {
    let doc = generate(&GradientType::Linear, colors(&["#fff", "#000"]));
    assert_eq!(
        doc,
        "<?xml version=\"1.0\" encoding=\"utf-8\"?>\
         <svg xmlns=\"http://www.w3.org/2000/svg\">\
         <defs>\
         <linearGradient id=\"g\" gradientTransform=\"rotate(90)\">\
         <stop offset=\"0\" stop-color=\"#fff\"/>\
         <stop offset=\"1\" stop-color=\"#000\"/>\
         </linearGradient>\
         </defs>\
         <rect width=\"100%\" height=\"100%\" fill=\"url(#g)\"/>\
         </svg>"
    );
}

#[test]
fn three_colors_spread_from_the_center() {
    let doc = generate(&GradientType::Radial, colors(&["#f00", "#ff0", "#0f0"]));
    assert_eq!(
        doc,
        "<?xml version=\"1.0\" encoding=\"utf-8\"?>\
         <svg xmlns=\"http://www.w3.org/2000/svg\">\
         <defs>\
         <radialGradient id=\"g\">\
         <stop offset=\"0\" stop-color=\"#f00\"/>\
         <stop offset=\"0.5\" stop-color=\"#ff0\"/>\
         <stop offset=\"1\" stop-color=\"#0f0\"/>\
         </radialGradient>\
         </defs>\
         <rect width=\"100%\" height=\"100%\" fill=\"url(#g)\"/>\
         </svg>"
    );
}

#[test]
fn a_single_color_has_a_single_stop_at_zero() {
    let doc = generate(&GradientType::Linear, colors(&["#000"]));
    assert_eq!(
        doc,
        "<?xml version=\"1.0\" encoding=\"utf-8\"?>\
         <svg xmlns=\"http://www.w3.org/2000/svg\">\
         <defs>\
         <linearGradient id=\"g\" gradientTransform=\"rotate(90)\">\
         <stop offset=\"0\" stop-color=\"#000\"/>\
         </linearGradient>\
         </defs>\
         <rect width=\"100%\" height=\"100%\" fill=\"url(#g)\"/>\
         </svg>"
    );
    let round = generate(&GradientType::Radial, colors(&["red"]));
    assert_eq!(count(&round, "<stop "), 1);
    assert!(round.contains("<stop offset=\"0\" stop-color=\"red\"/>"));
}

#[test]
fn no_colors_give_a_gradient_without_stops() {
    assert_eq!(
        generate(&GradientType::Linear, Vec::new()),
        "<?xml version=\"1.0\" encoding=\"utf-8\"?>\
         <svg xmlns=\"http://www.w3.org/2000/svg\">\
         <defs>\
         <linearGradient id=\"g\" gradientTransform=\"rotate(90)\">\
         </linearGradient>\
         </defs>\
         <rect width=\"100%\" height=\"100%\" fill=\"url(#g)\"/>\
         </svg>"
    );
    assert_eq!(
        generate(&GradientType::Radial, Vec::new()),
        "<?xml version=\"1.0\" encoding=\"utf-8\"?>\
         <svg xmlns=\"http://www.w3.org/2000/svg\">\
         <defs>\
         <radialGradient id=\"g\">\
         </radialGradient>\
         </defs>\
         <rect width=\"100%\" height=\"100%\" fill=\"url(#g)\"/>\
         </svg>"
    );
}

#[test]
fn four_colors_lie_a_third_apart() {
    let doc = generate(
        &GradientType::Radial,
        colors(&["#00e", "#07e", "#0ff", "white"]),
    );
    assert_eq!(
        doc,
        "<?xml version=\"1.0\" encoding=\"utf-8\"?>\
         <svg xmlns=\"http://www.w3.org/2000/svg\">\
         <defs>\
         <radialGradient id=\"g\">\
         <stop offset=\"0\" stop-color=\"#00e\"/>\
         <stop offset=\"0.33333333333333333333\" stop-color=\"#07e\"/>\
         <stop offset=\"0.66666666666666666666\" stop-color=\"#0ff\"/>\
         <stop offset=\"1\" stop-color=\"white\"/>\
         </radialGradient>\
         </defs>\
         <rect width=\"100%\" height=\"100%\" fill=\"url(#g)\"/>\
         </svg>"
    );
}

#[test]
fn there_is_one_stop_for_each_color_in_order() {
    let rainbow = ["#f00", "#ff0", "#0f0", "#0ff", "#00f", "#f0f"];
    let doc = generate(&GradientType::Linear, colors(&rainbow));
    assert_eq!(count(&doc, "<stop "), 6);
    assert_eq!(count(&doc, "/>"), 7);
    let offsets = ["0", "0.2", "0.4", "0.6", "0.8", "1"];
    let mut from = 0;
    for (offset, color) in offsets.iter().zip(rainbow.iter()) {
        let stop = format!("<stop offset=\"{}\" stop-color=\"{}\"/>", offset, color);
        let at = doc[from..].find(&stop).expect("the stop, after the one before");
        from += at + stop.len();
    }
    assert!(doc[from..].starts_with("</linearGradient>"));
}

#[test]
fn equal_colors_keep_their_own_stops() {
    let doc = generate(&GradientType::Linear, colors(&["red", "red", "red"]));
    assert!(doc.contains(
        "<stop offset=\"0\" stop-color=\"red\"/>\
         <stop offset=\"0.5\" stop-color=\"red\"/>\
         <stop offset=\"1\" stop-color=\"red\"/>"
    ));
}

#[test]
fn only_a_linear_gradient_is_turned() {
    for list in [
        colors(&[]),
        colors(&["#000"]),
        colors(&["#fff", "#000"]),
        colors(&["#ff0", "#0ff", "#f0f"]),
    ] {
        let linear = generate(&GradientType::Linear, list.clone());
        assert!(linear.contains("<linearGradient id=\"g\" gradientTransform=\"rotate(90)\">"));
        assert!(linear.contains("</linearGradient>"));
        assert!(!linear.contains("radialGradient"));
        let radial = generate(&GradientType::Radial, list);
        assert!(radial.contains("<radialGradient id=\"g\">"));
        assert!(radial.contains("</radialGradient>"));
        assert!(!radial.contains("gradientTransform"));
        assert!(!radial.contains("rotate"));
        assert!(!radial.contains("linearGradient"));
    }
}

#[test]
fn the_document_is_framed_as_markup() {
    for kind in [GradientType::Linear, GradientType::Radial] {
        let doc = generate(&kind, colors(&["#000", "#700", "#f70", "#ff0", "#fff"]));
        assert!(doc
            .starts_with("<?xml version=\"1.0\" encoding=\"utf-8\"?><svg xmlns=\"http://www.w3.org/2000/svg\"><defs><"));
        assert!(doc.ends_with(
            "</defs><rect width=\"100%\" height=\"100%\" fill=\"url(#g)\"/></svg>"
        ));
        assert_eq!(count(&doc, "<?xml"), 1);
        assert_eq!(count(&doc, "<svg "), 1);
        assert_eq!(count(&doc, "</svg>"), 1);
        assert_eq!(count(&doc, "<defs>"), 1);
        assert_eq!(count(&doc, "</defs>"), 1);
        assert_eq!(count(&doc, "Gradient "), 1);
        assert_eq!(count(&doc, "Gradient>"), 1);
        assert_eq!(count(&doc, "<stop "), 5);
        assert_eq!(count(&doc, "<rect "), 1);
        assert_eq!(count(&doc, "\"") % 2, 0);
        assert!(!doc.contains('\n'));
    }
}

#[test]
fn colors_stand_in_the_document_as_they_are() {
    let odd = [" a b ", "rgb(1, 2, 3)", "it's", "a<b>&c;", "", "色"];
    let doc = generate(&GradientType::Radial, colors(&odd));
    for color in odd {
        assert!(doc.contains(&format!(" stop-color=\"{}\"/>", color)));
    }
    let template = generate(&GradientType::Radial, colors(&["", "", "", "", "", ""]));
    assert_eq!(count(&doc, "\""), count(&template, "\""));
}

#[test]
fn the_same_arguments_give_the_same_document() {
    let list = ["#fff", "#0e1", "hsl(10 20% 30%)"];
    for kind in [GradientType::Linear, GradientType::Radial] {
        let first = generate(&kind, colors(&list));
        let second = generate(&kind, colors(&list));
        assert_eq!(first, second);
        assert_eq!(first.as_bytes(), second.as_bytes());
    }
    assert_ne!(
        generate(&GradientType::Linear, colors(&list)),
        generate(&GradientType::Radial, colors(&list))
    );
    assert_ne!(
        generate(&GradientType::Linear, colors(&["a", "b"])),
        generate(&GradientType::Linear, colors(&["b", "a"]))
    );
}

#[test]
fn long_lists_are_spread_evenly_too() {
    let list: Vec<CSSColor> = (0..1001)
        .map(|i| CSSColor::new(format!("hsl({} 100% 50%)", i % 360)).expect("no quote"))
        .collect();
    let doc = generate(&GradientType::Linear, list);
    assert_eq!(count(&doc, "<stop "), 1001);
    assert!(doc.contains("<stop offset=\"0\" stop-color=\"hsl(0 100% 50%)\"/>"));
    assert!(doc.contains("<stop offset=\"0.001\" stop-color=\"hsl(1 100% 50%)\"/>"));
    assert!(doc.contains("<stop offset=\"0.5\" stop-color=\"hsl(140 100% 50%)\"/>"));
    assert!(doc.contains("<stop offset=\"0.999\" stop-color=\"hsl(279 100% 50%)\"/>"));
    assert!(doc.contains("<stop offset=\"1\" stop-color=\"hsl(280 100% 50%)\"/>"));
}

#[test]
fn every_color_is_read_back_between_its_quotes() {
    let list = [" a b ", "rgb(1, 2, 3)", "it's", "a<b>&c;", "", "/><stop offset='2", "色"];
    let doc = generate(&GradientType::Linear, colors(&list));
    let values: Vec<&str> = doc.split('"').skip(1).step_by(2).collect();
    assert_eq!(
        values,
        [
            "1.0",
            "utf-8",
            "http://www.w3.org/2000/svg",
            "g",
            "rotate(90)",
            "0",
            " a b ",
            "0.16666666666666666666",
            "rgb(1, 2, 3)",
            "0.33333333333333333333",
            "it's",
            "0.5",
            "a<b>&c;",
            "0.66666666666666666666",
            "",
            "0.83333333333333333333",
            "/><stop offset='2",
            "1",
            "色",
            "100%",
            "100%",
            "url(#g)",
        ]
    );
    let round = generate(&GradientType::Radial, colors(&["#fff"]));
    let values: Vec<&str> = round.split('"').skip(1).step_by(2).collect();
    assert_eq!(
        values,
        ["1.0", "utf-8", "http://www.w3.org/2000/svg", "g", "0", "#fff", "100%", "100%", "url(#g)"]
    );
}
