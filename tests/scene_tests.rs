use ray_tracer::directive::{parse_line, split_words, Command, SceneLine};
use ray_tracer::scene::{triangle_corners, RenderSettings, SceneError, TransformStack};

#[test]
fn default_settings() {
    let s = RenderSettings::default();
    assert_eq!(s.width, 400);
    assert_eq!(s.height, 300);
    assert_eq!(s.trace_depth, 5);
    assert_eq!(s.output_file, "image_out.png");
}

#[test]
fn stack_push_and_pop() {
    let mut st = TransformStack::new(1u32);
    assert_eq!(st.top(), 1);
    st.replace_top(2);
    assert_eq!(st.top(), 2);
    st.push();
    assert_eq!(st.top(), 2);
    st.replace_top(6);
    assert_eq!(st.top(), 6);
    assert_eq!(st.pop(), Ok(()));
    assert_eq!(st.top(), 2);
}

#[test]
fn stack_refuses_to_pop_base_frame() {
    let mut st = TransformStack::new(7i64);
    assert_eq!(st.pop(), Err(SceneError::UnbalancedPop));
    assert_eq!(st.top(), 7);
    st.push();
    assert_eq!(st.pop(), Ok(()));
    assert_eq!(st.pop(), Err(SceneError::UnbalancedPop));
}

#[test]
fn corners_by_index() {
    let vs = vec![10, 20, 30, 40];
    assert_eq!(triangle_corners(&vs, [0, 3, 1]), Ok((10, 40, 20)));
    assert_eq!(triangle_corners(&vs, [2, 2, 2]), Ok((30, 30, 30)));
}

#[test]
fn corners_out_of_range() {
    let vs = vec![10, 20, 30];
    assert_eq!(triangle_corners(&vs, [0, 3, 1]), Err(SceneError::VertexOutOfRange { index: 3 }));
    assert_eq!(triangle_corners(&vs, [5, 4, 1]), Err(SceneError::VertexOutOfRange { index: 5 }));
    let none: Vec<i32> = vec![];
    assert_eq!(triangle_corners(&none, [0, 0, 0]), Err(SceneError::VertexOutOfRange { index: 0 }));
}

#[test]
fn words_split_at_spaces() {
    assert_eq!(split_words("sphere  1 2\t 3 "), vec!["sphere", "1", "2\t", "3"]);
    assert_eq!(split_words(""), Vec::<String>::new());
    assert_eq!(split_words("   "), Vec::<String>::new());
    assert_eq!(split_words("tri"), vec!["tri"]);
    assert_eq!(split_words(" vertex é 1"), vec!["vertex", "é", "1"]);
}

#[test]
fn blank_lines() {
    assert!(matches!(parse_line(""), Ok(SceneLine::Blank)));
    assert!(matches!(parse_line("# size 1 2"), Ok(SceneLine::Blank)));
    assert!(matches!(parse_line("    "), Ok(SceneLine::Blank)));
}

#[test]
fn directive_with_arguments() {
    match parse_line("sphere 0 0 -20 3") {
        Ok(SceneLine::Directive { command, args }) => {
            assert_eq!(command, Command::Sphere);
            assert_eq!(args, vec!["0", "0", "-20", "3"]);
        },
        other => panic!("unexpected {:?}", other),
    }
    match parse_line("  pushTransform") {
        Ok(SceneLine::Directive { command, args }) => {
            assert_eq!(command, Command::PushTransform);
            assert!(args.is_empty());
        },
        other => panic!("unexpected {:?}", other),
    }
    match parse_line("size 640 480 extra") {
        Ok(SceneLine::Directive { command, args }) => {
            assert_eq!(command, Command::Size);
            assert_eq!(args, vec!["640", "480", "extra"]);
        },
        other => panic!("unexpected {:?}", other),
    }
}

#[test]
fn unknown_directive() {
    match parse_line("ambient 0.1 0.1 0.1") {
        Ok(SceneLine::Unknown { name }) => assert_eq!(name, "ambient"),
        other => panic!("unexpected {:?}", other),
    }
    match parse_line(" #late comment") {
        Ok(SceneLine::Unknown { name }) => assert_eq!(name, "#late"),
        other => panic!("unexpected {:?}", other),
    }
}

#[test]
fn directive_missing_arguments() {
    assert!(matches!(
        parse_line("camera 0 0 5 0 0 0 0 1 0"),
        Err(SceneError::MissingArguments { expected: 10, found: 9 })
    ));
    assert!(matches!(parse_line("rotate"), Err(SceneError::MissingArguments { expected: 4, found: 0 })));
}

#[test]
fn command_names_and_arities() {
    let table = [
        ("size", Command::Size, 2),
        ("output", Command::Output, 1),
        ("maxdepth", Command::MaxDepth, 1),
        ("camera", Command::Camera, 10),
        ("sphere", Command::Sphere, 4),
        ("maxverts", Command::MaxVerts, 1),
        ("vertex", Command::Vertex, 3),
        ("tri", Command::Tri, 3),
        ("translate", Command::Translate, 3),
        ("scale", Command::Scale, 3),
        ("rotate", Command::Rotate, 4),
        ("pushTransform", Command::PushTransform, 0),
        ("popTransform", Command::PopTransform, 0),
    ];
    for (name, command, arity) in table {
        assert_eq!(Command::from_word(&name.to_string()), Some(command));
        assert_eq!(command.arity(), arity);
    }
    assert_eq!(Command::from_word(&"Sphere".to_string()), None);
    assert_eq!(Command::from_word(&"".to_string()), None);
}
