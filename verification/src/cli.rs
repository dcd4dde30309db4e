//! The commands of the program, and what each of them needs of the settings before it may
//! reach for the board's service.
use crate::configuration::Configuration;
use vstd::prelude::*;
use vstd::string::*;

verus! {

/// What the program was started with.
pub struct Opts {
    pub subcmd: SubCommand,
}

/// The commands.
pub enum SubCommand {
    ShowListsOfBoard(ShowListsOfBoard),
    ShowCurrentVelocity(ShowCurrentVelocity),
    ShowStoredVelocities(ShowStoredVelocities),
    PlotVelocityGraph(PlotVelocityGraph),
    AddSprintVelocity(AddSprintVelocity),
    AddSprintVelocityManually(AddSprintVelocityManually),
}

/// Shows the lists of a board, for the first set-up of the program.
pub struct ShowListsOfBoard {
    /// The board whose lists are shown; the board of the settings where none is given.
    pub board_id: Option<String>,
}

/// Shows the velocity of the sprint that is under way.
pub struct ShowCurrentVelocity {}

/// Shows the velocities of the sprints that the ledger holds.
pub struct ShowStoredVelocities {}

/// Draws the chart of the velocities that the ledger holds.
pub struct PlotVelocityGraph {
    /// The file that the chart is written to.
    pub output_file_name: String,
}

/// Records the velocity of the sprint that has just ended.
pub struct AddSprintVelocity {}

/// Records the velocity of a sprint by hand.
pub struct AddSprintVelocityManually {
    /// The number of the sprint.
    pub sprint_number: u8,
    /// The story points finished in it.
    pub velocity: u8,
}

/// The setting that a command lacks.
#[derive(Clone, Copy, Debug, PartialEq, Eq, Structural)]
pub enum Unconfigured {
    /// No board was given, and the settings name none.
    BoardId,
    /// The key or the token for the board's service is blank.
    Credentials,
    /// A list that the command reads is blank in the settings.
    ListId,
}

/// The board that `ShowListsOfBoard` asks for: the one given with the command, else the one
/// of the settings.
pub open spec fn chosen_board(command: ShowListsOfBoard, configuration: Configuration) -> Seq<
    char,
> {
    match command.board_id {
        Some(id) => id@,
        None => configuration.trello.board.id@,
    }
}

/// The board that `ShowListsOfBoard` asks for: the one given with the command, else the one
/// of the settings.
pub fn board_to_show(command: &ShowListsOfBoard, configuration: &Configuration) -> (board_id:
    String)
    ensures
        board_id@ == chosen_board(*command, *configuration),
{
    match &command.board_id {
        Some(id) => id.clone(),
        None => configuration.trello.board.id.clone(),
    }
}

/// The first setting that a command lacks, if it lacks one. A command that only reads or
/// writes the ledger needs none; one that reads the board needs the credentials and the
/// identifiers of what it reads.
pub open spec fn missing_setting(command: SubCommand, configuration: Configuration) -> Option<
    Unconfigured,
> {
    match command {
        SubCommand::ShowListsOfBoard(show) => if chosen_board(show, configuration).len() == 0 {
            Some(Unconfigured::BoardId)
        } else if !configuration.trello.api.is_set() {
            Some(Unconfigured::Credentials)
        } else {
            None
        },
        SubCommand::ShowCurrentVelocity(_) => if !configuration.trello.api.is_set() {
            Some(Unconfigured::Credentials)
        } else if !configuration.trello.lists.is_set() {
            Some(Unconfigured::ListId)
        } else {
            None
        },
        SubCommand::AddSprintVelocity(_) => if !configuration.trello.api.is_set() {
            Some(Unconfigured::Credentials)
        } else if configuration.trello.lists.done_id@.len() == 0 {
            Some(Unconfigured::ListId)
        } else {
            None
        },
        _ => None,
    }
}

/// Tells whether the settings hold all that a command needs, and if not, what is missing.
/// A command that fails here must not reach for the board's service.
pub fn check_configured(command: &SubCommand, configuration: &Configuration) -> (checked: Result<
    (),
    Unconfigured,
>)
    ensures
        match missing_setting(*command, *configuration) {
            Some(missing) => checked == Err::<(), Unconfigured>(missing),
            None => checked is Ok,
        },
{
    match command {
        SubCommand::ShowListsOfBoard(show) => {
            let blank = match &show.board_id {
                Some(id) => id.as_str().is_empty(),
                None => configuration.trello.board.id.as_str().is_empty(),
            };
            if blank {
                Err(Unconfigured::BoardId)
            } else if !configuration.trello.api.is_configured() {
                Err(Unconfigured::Credentials)
            } else {
                Ok(())
            }
        },
        SubCommand::ShowCurrentVelocity(_) => {
            if !configuration.trello.api.is_configured() {
                Err(Unconfigured::Credentials)
            } else if !configuration.trello.lists.is_configured() {
                Err(Unconfigured::ListId)
            } else {
                Ok(())
            }
        },
        SubCommand::AddSprintVelocity(_) => {
            if !configuration.trello.api.is_configured() {
                Err(Unconfigured::Credentials)
            } else if configuration.trello.lists.done_id.as_str().is_empty() {
                Err(Unconfigured::ListId)
            } else {
                Ok(())
            }
        },
        _ => Ok(()),
    }
}

/// What the user is told when a setting is missing.
pub fn guidance(missing: Unconfigured) -> (message: String)
    ensures
        missing == Unconfigured::BoardId ==> message@
            == "You have to supply a board id via the configuration file or the command line."@,
        missing == Unconfigured::Credentials ==> message@
            == "You have to supply the API key and token via the configuration file."@,
        missing == Unconfigured::ListId ==> message@
            == "You have to supply the ids of the lists via the configuration file."@,
{
    match missing {
        Unconfigured::BoardId => String::from_str(
            "You have to supply a board id via the configuration file or the command line.",
        ),
        Unconfigured::Credentials => String::from_str(
            "You have to supply the API key and token via the configuration file.",
        ),
        Unconfigured::ListId => String::from_str(
            "You have to supply the ids of the lists via the configuration file.",
        ),
    }
}

/// The address that answers with the lists of a board.
pub fn lists_url(board_id: &str, key: &str, token: &str) -> (url: String)
    ensures
        url@ == "https://api.trello.com/1/boards/"@ + board_id@ + "/lists?key="@ + key@
            + "&token="@ + token@,
{
    let mut url = String::from_str("https://api.trello.com/1/boards/");
    url.append(board_id);
    url.append("/lists?key=");
    url.append(key);
    url.append("&token=");
    url.append(token);
    url
}

/// The address that answers with the cards of a list.
pub fn cards_url(list_id: &str, key: &str, token: &str) -> (url: String)
    ensures
        url@ == "https://api.trello.com/1/lists/"@ + list_id@ + "/cards?key="@ + key@
            + "&token="@ + token@,
{
    let mut url = String::from_str("https://api.trello.com/1/lists/");
    url.append(list_id);
    url.append("/cards?key=");
    url.append(key);
    url.append("&token=");
    url.append(token);
    url
}

} // verus!
