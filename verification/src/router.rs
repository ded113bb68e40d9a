//! Choosing the handler for a parsed command.

use crate::text::{str_eq, strings_view};
use crate::tokenizer::{
    after_trigger, command_of, has_trigger, tokenize, CommandView, ParsedCommand,
};
use crate::workouts::WorkoutsCommand;
use vstd::prelude::*;

verus! {

/// The handlers of the bot, and `NotFound` for a message that none of them
/// takes.
#[derive(Debug, Clone, Copy, PartialEq, Eq, Structural)]
pub enum Route {
    /// `workouts view`: the author's workouts.
    WorkoutsView,
    /// `exercises query ...`: exercises by muscle group or by name.
    ExercisesQuery,
    /// `exercises view ...`: one exercise in detail.
    ExercisesView,
    /// `music add <url>`: link ingestion.
    MusicAdd,
    /// `music random`: one stored link, picked at random.
    MusicRandom,
    /// `set squat <kg>`: the author's squat record.
    SetSquat,
    /// No handler: the message is ignored without a reply.
    NotFound,
}

/// What the dispatcher does first for a route.
#[derive(Debug, Clone, Copy, PartialEq, Eq, Structural)]
pub enum Opening {
    /// Nothing at all: no reply and no storage access.
    Nothing,
    /// A storage query, whose rows decide the reply.
    Storage,
    /// Canonicalisation of a link; storage is reached only if it and the
    /// verification succeed.
    Canonicalize,
}

/// Whether some handler is filed under `name`.
pub open spec fn is_known_name(name: Seq<char>) -> bool {
    name == "workouts"@ || name == "exercises"@ || name == "music"@ || name == "set"@
}

/// The subcommand: the first argument, if there is one.
pub open spec fn subcommand(args: Seq<Seq<char>>) -> Option<Seq<char>> {
    if args.len() > 0 {
        Some(args[0])
    } else {
        None
    }
}

/// The routing table.
pub open spec fn route_of(cmd: CommandView) -> Route {
    let sub = subcommand(cmd.args);
    if cmd.name == "exercises"@ {
        if sub == Some("query"@) {
            Route::ExercisesQuery
        } else if sub == Some("view"@) {
            Route::ExercisesView
        } else {
            Route::NotFound
        }
    } else if cmd.name == "workouts"@ {
        if WorkoutsCommand::accepts_spec(cmd.args) {
            Route::WorkoutsView
        } else {
            Route::NotFound
        }
    } else if cmd.name == "music"@ {
        if sub == Some("add"@) {
            Route::MusicAdd
        } else if sub == Some("random"@) {
            Route::MusicRandom
        } else {
            Route::NotFound
        }
    } else if cmd.name == "set"@ {
        if sub == Some("squat"@) {
            Route::SetSquat
        } else {
            Route::NotFound
        }
    } else {
        Route::NotFound
    }
}

/// The route of a whole message body: a body without the trigger prefix has
/// no handler.
pub open spec fn route_of_body(body: Seq<char>) -> Route {
    if has_trigger(body) {
        route_of(command_of(after_trigger(body)))
    } else {
        Route::NotFound
    }
}

impl Route {
    /// What the dispatcher does first for this route.
    pub open spec fn opening_spec(self) -> Opening {
        match self {
            Route::NotFound => Opening::Nothing,
            Route::MusicAdd => Opening::Canonicalize,
            Route::WorkoutsView => Opening::Storage,
            Route::ExercisesQuery => Opening::Storage,
            Route::ExercisesView => Opening::Storage,
            Route::MusicRandom => Opening::Storage,
            Route::SetSquat => Opening::Storage,
        }
    }

    /// What the dispatcher does first for this route. Only `NotFound` opens
    /// with nothing.
    pub fn opening(&self) -> (r: Opening)
        ensures
            r == self.opening_spec(),
            r == Opening::Nothing <==> *self == Route::NotFound,
    {
        match self {
            Route::NotFound => Opening::Nothing,
            Route::MusicAdd => Opening::Canonicalize,
            Route::WorkoutsView => Opening::Storage,
            Route::ExercisesQuery => Opening::Storage,
            Route::ExercisesView => Opening::Storage,
            Route::MusicRandom => Opening::Storage,
            Route::SetSquat => Opening::Storage,
        }
    }
}

/// Looks the command up in the routing table. A name or a subcommand that
/// the table does not hold, or a missing subcommand, gives `NotFound`, never
/// an error.
pub fn route(cmd: &ParsedCommand) -> (r: Route)
    ensures
        r == route_of(cmd@),
        !is_known_name(cmd@.name) ==> r == Route::NotFound,
{
    let name = cmd.name.as_str();
    let has_sub = cmd.args.len() > 0;
    proof {
        if has_sub {
            assert(strings_view(cmd.args@)[0] == cmd.args@[0]@);
        }
    }
    if str_eq(name, "exercises") {
        if has_sub && str_eq(cmd.args[0].as_str(), "query") {
            Route::ExercisesQuery
        } else if has_sub && str_eq(cmd.args[0].as_str(), "view") {
            Route::ExercisesView
        } else {
            Route::NotFound
        }
    } else if str_eq(name, "workouts") {
        if WorkoutsCommand::accepts(&cmd.args) {
            Route::WorkoutsView
        } else {
            Route::NotFound
        }
    } else if str_eq(name, "music") {
        if has_sub && str_eq(cmd.args[0].as_str(), "add") {
            Route::MusicAdd
        } else if has_sub && str_eq(cmd.args[0].as_str(), "random") {
            Route::MusicRandom
        } else {
            Route::NotFound
        }
    } else if str_eq(name, "set") {
        if has_sub && str_eq(cmd.args[0].as_str(), "squat") {
            Route::SetSquat
        } else {
            Route::NotFound
        }
    } else {
        Route::NotFound
    }
}

/// A message as the dispatcher sees it: the handler and the arguments that
/// the handler gets.
#[derive(Debug, Clone, PartialEq, Eq)]
pub struct Dispatch {
    pub route: Route,
    pub args: Vec<String>,
}

/// Tokenizes a message body and routes it. A body without the trigger
/// prefix is ignored: it gets `NotFound` and no arguments.
pub fn dispatch(body: &str) -> (d: Dispatch)
    ensures
        d.route == route_of_body(body@),
        strings_view(d.args@) == if has_trigger(body@) {
            command_of(after_trigger(body@)).args
        } else {
            Seq::<Seq<char>>::empty()
        },
{
    match tokenize(body) {
        Some(cmd) => {
            let r = route(&cmd);
            Dispatch { route: r, args: cmd.args }
        },
        None => {
            let args: Vec<String> = Vec::new();
            assert(strings_view(args@) =~= Seq::<Seq<char>>::empty());
            Dispatch { route: Route::NotFound, args }
        },
    }
}

/// A command whose name is not in the routing table has no handler, so the
/// dispatcher opens with nothing: it sends no reply and never touches
/// storage.
pub proof fn lemma_unknown_name_does_nothing(cmd: CommandView)
    requires
        !is_known_name(cmd.name),
    ensures
        route_of(cmd) == Route::NotFound,
        route_of(cmd).opening_spec() == Opening::Nothing,
{
}

} // verus!
