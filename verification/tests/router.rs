use bb_core::router::{dispatch, route, Opening, Route};
use bb_core::tokenizer::ParsedCommand;
use bb_core::workouts::WorkoutsCommand;

fn command(name: &str, args: &[&str]) -> ParsedCommand {
    ParsedCommand { name: name.to_string(), args: args.iter().map(|s| s.to_string()).collect() }
}

#[test]
fn every_entry_of_the_table_is_routed() {
    assert_eq!(route(&command("workouts", &["view"])), Route::WorkoutsView);
    assert_eq!(route(&command("exercises", &["query", "triceps"])), Route::ExercisesQuery);
    assert_eq!(route(&command("exercises", &["view", "push", "up"])), Route::ExercisesView);
    assert_eq!(route(&command("music", &["add", "https://youtu.be/x"])), Route::MusicAdd);
    assert_eq!(route(&command("music", &["random"])), Route::MusicRandom);
    assert_eq!(route(&command("set", &["squat", "100"])), Route::SetSquat);
}

#[test]
fn unknown_subcommand_is_not_found() {
    assert_eq!(route(&command("workouts", &["delete"])), Route::NotFound);
    assert_eq!(route(&command("exercises", &["list"])), Route::NotFound);
    assert_eq!(route(&command("exercises", &[""])), Route::NotFound);
    assert_eq!(route(&command("music", &["remove"])), Route::NotFound);
    assert_eq!(route(&command("set", &["bench"])), Route::NotFound);
    assert_eq!(route(&command("music", &["Add"])), Route::NotFound);
}

#[test]
fn missing_subcommand_is_not_found() {
    assert_eq!(route(&command("workouts", &[])), Route::NotFound);
    assert_eq!(route(&command("exercises", &[])), Route::NotFound);
    assert_eq!(route(&command("music", &[])), Route::NotFound);
    assert_eq!(route(&command("set", &[])), Route::NotFound);
}

#[test]
fn unknown_name_is_not_found() {
    assert_eq!(route(&command("frobnicate", &[])), Route::NotFound);
    assert_eq!(route(&command("frobnicate", &["view"])), Route::NotFound);
    assert_eq!(route(&command("", &[])), Route::NotFound);
    assert_eq!(route(&command("Music", &["add"])), Route::NotFound);
    assert_eq!(route(&command("musics", &["add"])), Route::NotFound);
}

#[test]
fn unknown_command_produces_no_reply_and_no_storage_access() {
    let d = dispatch("bb frobnicate");
    assert_eq!(d.route, Route::NotFound);
    assert_eq!(d.route.opening(), Opening::Nothing);
    assert!(d.args.is_empty());
}

#[test]
fn message_without_prefix_is_ignored() {
    let d = dispatch("music add https://youtu.be/x");
    assert_eq!(d.route, Route::NotFound);
    assert!(d.args.is_empty());
    assert_eq!(dispatch("").route, Route::NotFound);
}

#[test]
fn dispatch_hands_the_arguments_to_the_handler() {
    let d = dispatch("bb music add https://youtu.be/xyz789");
    assert_eq!(d.route, Route::MusicAdd);
    assert_eq!(d.args, vec!["add".to_string(), "https://youtu.be/xyz789".to_string()]);
    assert_eq!(d.route.opening(), Opening::Canonicalize);
}

#[test]
fn empty_command_after_prefix_is_a_no_op() {
    let d = dispatch("bb ");
    assert_eq!(d.route, Route::NotFound);
    assert_eq!(d.route.opening(), Opening::Nothing);
}

#[test]
fn storage_routes_open_with_storage() {
    for r in [
        Route::WorkoutsView,
        Route::ExercisesQuery,
        Route::ExercisesView,
        Route::MusicRandom,
        Route::SetSquat,
    ] {
        assert_eq!(r.opening(), Opening::Storage);
    }
}

#[test]
fn workouts_takes_only_view() {
    assert!(WorkoutsCommand::accepts(&vec!["view".to_string()]));
    assert!(WorkoutsCommand::accepts(&vec!["view".to_string(), "more".to_string()]));
    assert!(!WorkoutsCommand::accepts(&vec!["views".to_string()]));
    assert!(!WorkoutsCommand::accepts(&vec![]));
}
