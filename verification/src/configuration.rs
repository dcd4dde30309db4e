//! The settings of the program: the credentials for the board's service, the board, and
//! the three lists whose cards are counted.
use vstd::prelude::*;
use vstd::string::*;

verus! {

/// The credentials for the service that holds the board.
pub struct ApiSettings {
    pub key: String,
    pub token: String,
}

impl ApiSettings {
    /// Neither the key nor the token is blank.
    pub open spec fn is_set(&self) -> bool {
        self.key@.len() > 0 && self.token@.len() > 0
    }

    /// Whether neither the key nor the token is blank.
    pub fn is_configured(&self) -> (set: bool)
        ensures
            set == self.is_set(),
    {
        !self.key.as_str().is_empty() && !self.token.as_str().is_empty()
    }
}

impl Default for ApiSettings {
    fn default() -> (settings: ApiSettings)
        ensures
            settings.key@ == Seq::<char>::empty(),
            settings.token@ == Seq::<char>::empty(),
    {
        ApiSettings { key: String::new(), token: String::new() }
    }
}

/// The board.
pub struct BoardSettings {
    pub id: String,
}

impl Default for BoardSettings {
    fn default() -> (settings: BoardSettings)
        ensures
            settings.id@ == Seq::<char>::empty(),
    {
        BoardSettings { id: String::new() }
    }
}

/// The lists of the board that hold the backlog, the cards in work and the finished cards.
pub struct ListSettings {
    pub backlog_id: String,
    pub doing_id: String,
    pub done_id: String,
}

impl ListSettings {
    /// None of the three lists is blank.
    pub open spec fn is_set(&self) -> bool {
        self.backlog_id@.len() > 0 && self.doing_id@.len() > 0 && self.done_id@.len() > 0
    }

    /// Whether none of the three lists is blank.
    pub fn is_configured(&self) -> (set: bool)
        ensures
            set == self.is_set(),
    {
        !self.backlog_id.as_str().is_empty() && !self.doing_id.as_str().is_empty()
            && !self.done_id.as_str().is_empty()
    }
}

impl Default for ListSettings {
    fn default() -> (settings: ListSettings)
        ensures
            settings.backlog_id@ == Seq::<char>::empty(),
            settings.doing_id@ == Seq::<char>::empty(),
            settings.done_id@ == Seq::<char>::empty(),
    {
        ListSettings { backlog_id: String::new(), doing_id: String::new(), done_id: String::new() }
    }
}

/// All that concerns the board's service.
pub struct TrelloSettings {
    pub api: ApiSettings,
    pub board: BoardSettings,
    pub lists: ListSettings,
}

impl TrelloSettings {
    /// Every setting is blank.
    pub open spec fn is_blank(&self) -> bool {
        &&& self.api.key@ == Seq::<char>::empty()
        &&& self.api.token@ == Seq::<char>::empty()
        &&& self.board.id@ == Seq::<char>::empty()
        &&& self.lists.backlog_id@ == Seq::<char>::empty()
        &&& self.lists.doing_id@ == Seq::<char>::empty()
        &&& self.lists.done_id@ == Seq::<char>::empty()
    }
}

impl Default for TrelloSettings {
    fn default() -> (settings: TrelloSettings)
        ensures
            settings.is_blank(),
    {
        TrelloSettings {
            api: ApiSettings::default(),
            board: BoardSettings::default(),
            lists: ListSettings::default(),
        }
    }
}

/// The settings of the program. Where none were found, every one of them is blank.
pub struct Configuration {
    pub trello: TrelloSettings,
}

impl Default for Configuration {
    fn default() -> (configuration: Configuration)
        ensures
            configuration.trello.is_blank(),
    {
        Configuration { trello: TrelloSettings::default() }
    }
}

} // verus!
