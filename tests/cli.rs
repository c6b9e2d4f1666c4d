use i3switch::alignment;
use i3switch::cli::{Cli, CliError, UseBackend, HELP};
use i3switch::linear;

fn args_of(line: &str) -> Vec<String> {
    line.to_string().split_whitespace().map(String::from).collect()
}

#[test]
fn test_cli_parse() {
    let args = args_of("i3switch -i3 next wrap");
    let cli = Cli::parse(args).unwrap();
    assert_eq!(cli.backend, UseBackend::I3);
    assert_eq!(cli.command, "next");
    assert!(cli.wrap);
    assert!(cli.number.is_none());

    let args = args_of("i3switch -wm prev");
    let cli = Cli::parse(args).unwrap();
    assert_eq!(cli.backend, UseBackend::WmCtl);
    assert_eq!(cli.command, "prev");
    assert!(!cli.wrap);
    assert!(cli.number.is_none());

    let args = args_of("i3switch -xcb number 3");
    let cli = Cli::parse(args).unwrap();
    assert_eq!(cli.backend, UseBackend::Xcb);
    assert_eq!(cli.command, "number");
    assert!(!cli.wrap);
    assert_eq!(cli.number, Some(3));

    let args = args_of("i3switch -i3 up wrap");
    let cli = Cli::parse(args).unwrap();
    assert_eq!(cli.backend, UseBackend::I3);
    assert_eq!(cli.command, "up");
    assert!(cli.wrap);
    assert!(cli.number.is_none());

    let args = args_of("i3switch left");
    let cli = Cli::parse(args).unwrap();
    assert_eq!(cli.backend, UseBackend::I3);
    assert_eq!(cli.command, "left");
    assert!(!cli.wrap);
    assert!(cli.number.is_none());
}

#[test]
fn help_and_version_are_asked_for_first() {
    assert_eq!(Cli::parse(args_of("i3switch -h")).unwrap_err(), CliError::Help);
    assert_eq!(Cli::parse(args_of("i3switch --help next")).unwrap_err(), CliError::Help);
    assert_eq!(Cli::parse(args_of("i3switch -V")).unwrap_err(), CliError::Version);
    assert_eq!(Cli::parse(args_of("i3switch --version")).unwrap_err(), CliError::Version);
    assert!(Cli::help().starts_with("\ni3switch - A simple command-line utility"));
    assert_eq!(Cli::help(), HELP);
}

#[test]
fn malformed_command_lines_are_refused() {
    assert_eq!(Cli::parse(args_of("i3switch")).unwrap_err(), CliError::NoCommand);
    assert_eq!(Cli::parse(args_of("i3switch -i3")).unwrap_err(), CliError::NoCommand);
    assert_eq!(Cli::parse(args_of("i3switch wrap")).unwrap_err(), CliError::NoCommand);
    assert_eq!(
        Cli::parse(args_of("i3switch sideways")).unwrap_err(),
        CliError::UnexpectedArgument("sideways".to_string())
    );
    assert_eq!(
        Cli::parse(args_of("i3switch next wrap again")).unwrap_err(),
        CliError::UnexpectedArgument("again".to_string())
    );
    assert_eq!(Cli::parse(args_of("i3switch number")).unwrap_err(), CliError::NoNumber);
    assert_eq!(Cli::parse(args_of("i3switch number x")).unwrap_err(), CliError::NoNumber);
    assert_eq!(Cli::parse(args_of("i3switch number -1")).unwrap_err(), CliError::NoNumber);
    assert_eq!(
        Cli::parse(args_of("i3switch number 2 3")).unwrap_err(),
        CliError::UnexpectedArgument("3".to_string())
    );
}

#[test]
fn numbers_read_as_std_does() {
    assert_eq!(Cli::parse(args_of("i3switch number +7")).unwrap().number, Some(7));
    assert_eq!(Cli::parse(args_of("i3switch number 007")).unwrap().number, Some(7));
    assert_eq!(Cli::parse(args_of("i3switch number 18446744073709551615")).unwrap().number, Some(usize::MAX));
    assert_eq!(Cli::parse(args_of("i3switch number 18446744073709551616")).unwrap_err(), CliError::NoNumber);
    assert_eq!(Cli::parse(args_of("i3switch number +")).unwrap_err(), CliError::NoNumber);
}

#[test]
fn directions_follow_the_command() {
    let cli = Cli::parse(args_of("i3switch prev")).unwrap();
    assert_eq!(cli.linear_direction(), Some(linear::Direction::Prev));
    assert_eq!(cli.planar_direction(), None);
    let cli = Cli::parse(args_of("i3switch down")).unwrap();
    assert_eq!(cli.linear_direction(), None);
    assert_eq!(cli.planar_direction(), Some(alignment::Direction::Down));
    let cli = Cli::parse(args_of("i3switch number 1")).unwrap();
    assert_eq!(cli.linear_direction(), None);
    assert_eq!(cli.planar_direction(), None);
    assert_eq!(UseBackend::iter(), vec![UseBackend::I3, UseBackend::WmCtl, UseBackend::Xcb]);
}

#[test]
fn wrap_is_accepted_with_number() {
    let cli = Cli::parse(args_of("i3switch number wrap 3")).unwrap();
    assert_eq!(cli.command, "number");
    assert_eq!(cli.number, Some(3));
    assert!(cli.wrap);
}
