use default_editor::{
    get, get_editor_command, get_with_args, Lookup, EDITOR, FALLBACK_EDITOR, VISUAL,
};

fn present(value: &str) -> Lookup<String> {
    Lookup::Present(value.to_string())
}

fn absent() -> Lookup<String> {
    Lookup::NotPresent
}

fn failed(error: &str) -> Lookup<String> {
    Lookup::Failed(error.to_string())
}

#[test]
fn it_falls_back_to_vi() {
    assert_eq!(get(absent(), absent()), Ok(FALLBACK_EDITOR.to_string()));
    assert_eq!(get(absent(), absent()), Ok("vi".to_string()));
}

#[test]
fn it_returns_visual() {
    assert_eq!(get(present("test1"), absent()), Ok("test1".to_string()));
}

#[test]
fn it_returns_editor() {
    assert_eq!(get(absent(), present("test2")), Ok("test2".to_string()));
}

#[test]
fn it_returns_visual_before_editor() {
    assert_eq!(get(present("test3"), present("test4")), Ok("test3".to_string()));
}

#[test]
fn it_returns_editor_with_args() {
    assert_eq!(
        get_with_args(absent(), present("test5 -a -b -c")),
        Ok((
            "test5".to_string(),
            vec!["-a".to_string(), "-b".to_string(), "-c".to_string()]
        ))
    );
}

#[test]
fn it_returns_editor_command_with_args() {
    let (program, args) = get_with_args(absent(), present("test6 -a -b -c")).unwrap();
    assert_eq!(program, "test6");
    assert_eq!(args, &["-a", "-b", "-c"]);
}

#[test]
fn it_returns_editor_command_without_args() {
    let (program, args) = get_with_args(absent(), present("test7")).unwrap();
    assert_eq!(program, "test7");
    assert_eq!(args.len(), 0);
}

#[test]
fn all_tests() {
    assert_eq!(get(absent(), absent()), Ok(FALLBACK_EDITOR.to_string()));
    assert_eq!(get(present("test1"), absent()), Ok("test1".to_string()));
    assert_eq!(get(absent(), present("test2")), Ok("test2".to_string()));
    assert_eq!(get(present("test3"), present("test4")), Ok("test3".to_string()));
    assert_eq!(
        get_with_args(absent(), present("test5 -a -b -c")),
        Ok((
            "test5".to_string(),
            vec!["-a".to_string(), "-b".to_string(), "-c".to_string()]
        ))
    );
}

#[test]
fn the_variables_are_visual_and_editor() {
    assert_eq!(VISUAL, "VISUAL");
    assert_eq!(EDITOR, "EDITOR");
    assert_eq!(FALLBACK_EDITOR, "vi");
}

#[test]
fn visual_is_returned_as_it_is() {
    assert_eq!(
        get(present("  code   --wait "), present("nano")),
        Ok("  code   --wait ".to_string())
    );
    assert_eq!(get(present(""), present("nano")), Ok(String::new()));
}

#[test]
fn visual_wins_over_a_failed_editor() {
    assert_eq!(get(present("emacs"), failed("bad")), Ok("emacs".to_string()));
}

#[test]
fn a_failed_visual_ends_the_search() {
    assert_eq!(get(failed("bad"), absent()), Err("bad".to_string()));
    assert_eq!(get(failed("bad"), present("nano")), Err("bad".to_string()));
    assert_eq!(get(failed("first"), failed("second")), Err("first".to_string()));
}

#[test]
fn a_failed_editor_ends_the_search_without_visual() {
    assert_eq!(get(absent(), failed("bad")), Err("bad".to_string()));
}

#[test]
fn get_editor_command_agrees_with_get() {
    let cases = [
        (absent(), absent()),
        (present("a"), absent()),
        (absent(), present("b")),
        (present("a"), present("b")),
        (failed("x"), present("b")),
        (absent(), failed("y")),
        (present("a"), failed("y")),
    ];
    for (visual, editor) in cases {
        assert_eq!(
            get_editor_command(visual.clone(), editor.clone()),
            get(visual, editor)
        );
    }
}

#[test]
fn get_with_args_passes_the_error_on() {
    assert_eq!(get_with_args(failed("bad"), present("nano -w")), Err("bad".to_string()));
    assert_eq!(get_with_args(absent(), failed("worse")), Err("worse".to_string()));
}

#[test]
fn get_with_args_falls_back_to_vi() {
    assert_eq!(get_with_args(absent(), absent()), Ok(("vi".to_string(), vec![])));
    assert_eq!(get_with_args(present(""), present("nano")), Ok(("vi".to_string(), vec![])));
    assert_eq!(get_with_args(present(" \t\n"), absent()), Ok(("vi".to_string(), vec![])));
}

#[test]
fn get_with_args_cuts_visual_before_editor() {
    assert_eq!(
        get_with_args(present("code --wait"), present("nano -w")),
        Ok(("code".to_string(), vec!["--wait".to_string()]))
    );
}

#[test]
fn lookups_compare_by_what_they_hold() {
    assert_eq!(present("a"), present("a"));
    assert_ne!(present("a"), present("b"));
    assert_ne!(present("a"), absent());
    assert_ne!(failed("a"), present("a"));
    assert_eq!(absent().clone(), absent());
}
