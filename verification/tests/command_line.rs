use code_m::cli::{parse_cli_command, CliCommand};

fn args(list: &[&str]) -> Vec<String> {
    list.iter().map(|arg| arg.to_string()).collect()
}

#[test]
fn defaults_to_demo_without_import_flag() {
    let command = parse_cli_command(&args(&["seythm"])).expect("parse");
    assert!(matches!(command, CliCommand::Demo));
}

#[test]
fn parses_import_command_and_folder() {
    let command =
        parse_cli_command(&args(&["seythm", "--import-osu", "tests/fixtures/osu/valid-6k"])).expect("parse");
    match command {
        CliCommand::ImportOsu { folder } => {
            assert!(folder.ends_with("tests/fixtures/osu/valid-6k"));
        }
        CliCommand::Demo => panic!("expected import command"),
        CliCommand::DemoAutoplay => panic!("expected import command"),
    }
}

#[test]
fn parses_autoplay_command() {
    let command = parse_cli_command(&args(&["seythm", "autoplay"])).expect("parse");
    assert!(matches!(command, CliCommand::DemoAutoplay));
}

#[test]
fn an_empty_command_line_plays() {
    assert_eq!(parse_cli_command(&Vec::new()), Ok(CliCommand::Demo));
}

#[test]
fn malformed_command_lines_are_refused_with_their_usage() {
    assert_eq!(
        parse_cli_command(&args(&["seythm", "--import-osu"])),
        Err("usage: seythm --import-osu <folder>".to_string())
    );
    assert_eq!(
        parse_cli_command(&args(&["seythm", "--import-osu", "a", "b"])),
        Err("usage: seythm --import-osu <folder>".to_string())
    );
    assert_eq!(
        parse_cli_command(&args(&["seythm", "autoplay", "now"])),
        Err("usage: seythm autoplay".to_string())
    );
    assert_eq!(
        parse_cli_command(&args(&["seythm", "--help"])),
        Err("unrecognized argument: --help".to_string())
    );
}
