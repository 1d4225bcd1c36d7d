//! From the text supplied on the command line to a validated
//! configuration.

use crate::error::{Field, ValidationError, ValidationErrorView};
use crate::field::{
    freq_outcome, height_outcome, lemma_excess_refused, nb_clients_outcome, parse_freq,
    parse_height, parse_nb_clients, parse_port, parse_width, port_outcome, width_outcome,
};
use crate::numeral::{decimal_digits, is_numeral, numeral_value};
use crate::teams::{
    first_repeat, lemma_first_repeat_none, lemma_some_first_repeat, names_of, occurs_before,
    validate_unique_teams,
};
use vstd::prelude::*;

verus! {

/// What the command line supplied for each argument, before any of it is
/// read: the text after each single-valued flag, if the flag was given,
/// and the team names in the order they were given.
#[derive(Debug, Default, PartialEq, Eq)]
pub struct RawArgs {
    pub port: Option<String>,
    pub width: Option<String>,
    pub height: Option<String>,
    pub teams: Vec<String>,
    pub clients_nb: Option<String>,
    pub freq: Option<String>,
}

/// The mathematical content of a [`RawArgs`].
pub struct RawArgsView {
    pub port: Option<Seq<char>>,
    pub width: Option<Seq<char>>,
    pub height: Option<Seq<char>>,
    pub teams: Seq<Seq<char>>,
    pub clients_nb: Option<Seq<char>>,
    pub freq: Option<Seq<char>>,
}

/// The characters of an optional text.
pub open spec fn text_of(supplied: Option<String>) -> Option<Seq<char>> {
    match supplied {
        Some(s) => Some(s@),
        None => None,
    }
}

impl View for RawArgs {
    type V = RawArgsView;

    open spec fn view(&self) -> RawArgsView {
        RawArgsView {
            port: text_of(self.port),
            width: text_of(self.width),
            height: text_of(self.height),
            teams: names_of(self.teams@),
            clients_nb: text_of(self.clients_nb),
            freq: text_of(self.freq),
        }
    }
}

/// The configuration a server starts with. A value of this type has
/// passed validation: it cannot be built or changed in any other way.
#[derive(Debug, PartialEq, Eq)]
pub struct ServerArgs {
    port: u16,
    width: u8,
    height: u8,
    teams: Vec<String>,
    clients_nb: u64,
    freq: u16,
}

/// The mathematical content of a [`ServerArgs`].
pub struct ServerArgsView {
    pub port: nat,
    pub width: nat,
    pub height: nat,
    pub teams: Seq<Seq<char>>,
    pub clients_nb: nat,
    pub freq: nat,
}

/// What every configuration satisfies: each number is positive and fits
/// its field, and there is at least one team and no team name twice.
pub open spec fn well_formed(v: ServerArgsView) -> bool {
    &&& 1 <= v.port <= 0xffff
    &&& 1 <= v.width <= 0xff
    &&& 1 <= v.height <= 0xff
    &&& v.teams.len() >= 1
    &&& v.teams.no_duplicates()
    &&& 1 <= v.clients_nb <= 0xffff_ffff_ffff_ffff
    &&& 1 <= v.freq <= 0xffff
}

impl View for ServerArgs {
    type V = ServerArgsView;

    closed spec fn view(&self) -> ServerArgsView {
        ServerArgsView {
            port: self.port as nat,
            width: self.width as nat,
            height: self.height as nat,
            teams: names_of(self.teams@),
            clients_nb: self.clients_nb as nat,
            freq: self.freq as nat,
        }
    }
}

impl ServerArgs {
    #[verifier::type_invariant]
    spec fn valid(&self) -> bool {
        well_formed(self@)
    }

    /// The port to listen on, from 1 to 65535.
    pub fn port(&self) -> (r: u16)
        ensures
            r as nat == self@.port,
            well_formed(self@),
    {
        proof {
            use_type_invariant(self);
        }
        self.port
    }

    /// The map width, from 1 to 255.
    pub fn width(&self) -> (r: u8)
        ensures
            r as nat == self@.width,
            well_formed(self@),
    {
        proof {
            use_type_invariant(self);
        }
        self.width
    }

    /// The map height, from 1 to 255.
    pub fn height(&self) -> (r: u8)
        ensures
            r as nat == self@.height,
            well_formed(self@),
    {
        proof {
            use_type_invariant(self);
        }
        self.height
    }

    /// The team names, in the order they were given; at least one, and
    /// no two equal.
    pub fn teams(&self) -> (r: &[String])
        ensures
            names_of(r@) == self@.teams,
            well_formed(self@),
    {
        proof {
            use_type_invariant(self);
        }
        self.teams.as_slice()
    }

    /// The number of clients allowed per team, at least 1.
    pub fn clients_nb(&self) -> (r: u64)
        ensures
            r as nat == self@.clients_nb,
            well_formed(self@),
    {
        proof {
            use_type_invariant(self);
        }
        self.clients_nb
    }

    /// The tick frequency, from 1 to 65535.
    pub fn freq(&self) -> (r: u16)
        ensures
            r as nat == self@.freq,
            well_formed(self@),
    {
        proof {
            use_type_invariant(self);
        }
        self.freq
    }
}

/// The error raised by the text supplied for one numeric field, given
/// what reading that text gives: none when nothing was supplied or the
/// text was accepted.
pub open spec fn refusal(
    field: Field,
    supplied: Option<Seq<char>>,
    read: spec_fn(Seq<char>) -> Result<nat, Seq<char>>,
) -> Option<ValidationErrorView> {
    match supplied {
        Some(s) => match read(s) {
            Err(reason) => Some(ValidationErrorView::InvalidValue { field, value: s, reason }),
            Ok(_) => None,
        },
        None => None,
    }
}

/// The first refused value, looking at port, width, height, clients per
/// team and tick frequency in that order. The order is that of the
/// fields, not the order in which the flags were typed, which a
/// [`RawArgs`] does not record.
pub open spec fn first_invalid(raw: RawArgsView) -> Option<ValidationErrorView> {
    let port = refusal(Field::Port, raw.port, |s: Seq<char>| port_outcome(s));
    let width = refusal(Field::Width, raw.width, |s: Seq<char>| width_outcome(s));
    let height = refusal(Field::Height, raw.height, |s: Seq<char>| height_outcome(s));
    let clients_nb = refusal(
        Field::ClientsNb,
        raw.clients_nb,
        |s: Seq<char>| nb_clients_outcome(s),
    );
    let freq = refusal(Field::Freq, raw.freq, |s: Seq<char>| freq_outcome(s));
    if port is Some {
        port
    } else if width is Some {
        width
    } else if height is Some {
        height
    } else if clients_nb is Some {
        clients_nb
    } else {
        freq
    }
}

/// The first argument that was not supplied, looking at port, width,
/// height, teams, clients per team and tick frequency in that order. An
/// empty team list counts as not supplied.
pub open spec fn first_missing(raw: RawArgsView) -> Option<Field> {
    if raw.port is None {
        Some(Field::Port)
    } else if raw.width is None {
        Some(Field::Width)
    } else if raw.height is None {
        Some(Field::Height)
    } else if raw.teams.len() == 0 {
        Some(Field::Teams)
    } else if raw.clients_nb is None {
        Some(Field::ClientsNb)
    } else if raw.freq is None {
        Some(Field::Freq)
    } else {
        None
    }
}

/// What validating `raw` gives.
///
/// A refused value is reported before a missing argument, and a missing
/// argument before a repeated team name. When nothing is wrong, every
/// number is the value of its numeral and the teams are the names
/// supplied, in the same order.
pub open spec fn server_args_outcome(raw: RawArgsView) -> Result<
    ServerArgsView,
    ValidationErrorView,
> {
    match first_invalid(raw) {
        Some(e) => Err(e),
        None => match first_missing(raw) {
            Some(field) => Err(ValidationErrorView::MissingRequiredArgument { field }),
            None => match first_repeat(raw.teams) {
                Some(j) => Err(ValidationErrorView::DuplicateValue { name: raw.teams[j] }),
                None => Ok(
                    ServerArgsView {
                        port: numeral_value(raw.port.unwrap()),
                        width: numeral_value(raw.width.unwrap()),
                        height: numeral_value(raw.height.unwrap()),
                        teams: raw.teams,
                        clients_nb: numeral_value(raw.clients_nb.unwrap()),
                        freq: numeral_value(raw.freq.unwrap()),
                    },
                ),
            },
        },
    }
}

/// Whether `s` is the text supplied for one of the five numeric fields.
pub open spec fn supplies(raw: RawArgsView, s: Seq<char>) -> bool {
    ||| raw.port == Some(s)
    ||| raw.width == Some(s)
    ||| raw.height == Some(s)
    ||| raw.clients_nb == Some(s)
    ||| raw.freq == Some(s)
}

/// Whether the text supplied for some numeric field is refused by that
/// field.
pub open spec fn supplies_refused_value(raw: RawArgsView) -> bool {
    ||| raw.port matches Some(s) && port_outcome(s) is Err
    ||| raw.width matches Some(s) && width_outcome(s) is Err
    ||| raw.height matches Some(s) && height_outcome(s) is Err
    ||| raw.clients_nb matches Some(s) && nb_clients_outcome(s) is Err
    ||| raw.freq matches Some(s) && freq_outcome(s) is Err
}

/// A refused value is always what validation reports, whatever else is
/// missing or repeated; and a refused port is reported before any other
/// refused value.
pub proof fn lemma_refused_value_is_reported(raw: RawArgsView)
    ensures
        supplies_refused_value(raw) <==> first_invalid(raw) is Some,
        supplies_refused_value(raw) <==> (server_args_outcome(raw) matches Err(e)
            && e is InvalidValue),
        match raw.port {
            Some(s) => match port_outcome(s) {
                Err(reason) => server_args_outcome(raw) == Err::<
                    ServerArgsView,
                    ValidationErrorView,
                >(ValidationErrorView::InvalidValue { field: Field::Port, value: s, reason }),
                Ok(_) => true,
            },
            None => true,
        },
{
}

/// Supplying a numeral worth zero for any numeric field fails with an
/// invalid value.
pub proof fn lemma_zero_is_invalid_value(raw: RawArgsView, s: Seq<char>)
    requires
        supplies(raw, s),
        is_numeral(s),
        numeral_value(s) == 0,
    ensures
        server_args_outcome(raw) matches Err(e) && e is InvalidValue,
{
    lemma_refused_value_is_reported(raw);
}

/// Supplying a number too large for its field, written in base ten,
/// fails with an invalid value.
pub proof fn lemma_excess_is_invalid_value(raw: RawArgsView, n: nat)
    requires
        ({
            ||| raw.port == Some(decimal_digits(n)) && n > 0xffff
            ||| raw.width == Some(decimal_digits(n)) && n > 0xff
            ||| raw.height == Some(decimal_digits(n)) && n > 0xff
            ||| raw.clients_nb == Some(decimal_digits(n)) && n > 0xffff_ffff_ffff_ffff
            ||| raw.freq == Some(decimal_digits(n)) && n > 0xffff
        }),
    ensures
        server_args_outcome(raw) matches Err(e) && e is InvalidValue,
{
    lemma_excess_refused(n);
    lemma_refused_value_is_reported(raw);
}

/// Supplying text that is not a decimal numeral for any numeric field
/// fails with an invalid value.
pub proof fn lemma_non_numeral_is_invalid_value(raw: RawArgsView, s: Seq<char>)
    requires
        supplies(raw, s),
        !is_numeral(s),
    ensures
        server_args_outcome(raw) matches Err(e) && e is InvalidValue,
{
    lemma_refused_value_is_reported(raw);
}

/// With no team name, and no refused value to report first, validation
/// fails with a missing argument; with the other five arguments present
/// the missing one is the team list.
pub proof fn lemma_no_team_is_missing_argument(raw: RawArgsView)
    requires
        raw.teams.len() == 0,
        !supplies_refused_value(raw),
    ensures
        server_args_outcome(raw) matches Err(e) && e is MissingRequiredArgument,
        raw.port is Some && raw.width is Some && raw.height is Some ==> server_args_outcome(raw)
            == Err::<ServerArgsView, ValidationErrorView>(
            ValidationErrorView::MissingRequiredArgument { field: Field::Teams },
        ),
{
    lemma_refused_value_is_reported(raw);
}

/// When every argument is present and every number accepted, a team
/// name that occurs twice fails validation with a duplicate value, and
/// the name reported is the first one that repeats an earlier name.
pub proof fn lemma_repeated_team_is_duplicate(raw: RawArgsView, i: int, j: int)
    requires
        !supplies_refused_value(raw),
        first_missing(raw) is None,
        0 <= i < j < raw.teams.len(),
        raw.teams[i] == raw.teams[j],
    ensures
        server_args_outcome(raw) matches Err(e) && e matches ValidationErrorView::DuplicateValue {
            name,
        } && exists|k: int|
            0 <= k <= j && occurs_before(raw.teams, k) && name == #[trigger] raw.teams[k],
{
    lemma_refused_value_is_reported(raw);
    lemma_some_first_repeat(raw.teams, j);
}

/// When every argument is present and every number accepted, distinct
/// team names pass validation and are kept in the order given.
pub proof fn lemma_distinct_teams_accepted(raw: RawArgsView)
    requires
        !supplies_refused_value(raw),
        first_missing(raw) is None,
        raw.teams.no_duplicates(),
    ensures
        server_args_outcome(raw) matches Ok(v) && v.teams == raw.teams,
{
    lemma_refused_value_is_reported(raw);
    lemma_first_repeat_none(raw.teams);
}

/// Whatever validation accepts is well formed: no partial or
/// out-of-range configuration ever comes out.
pub proof fn lemma_accepted_is_well_formed(raw: RawArgsView)
    ensures
        server_args_outcome(raw) matches Ok(v) ==> well_formed(v),
{
    lemma_first_repeat_none(raw.teams);
}

/// Validates the arguments of a server.
///
/// Every supplied number is read first; then all six arguments must be
/// present; then the team names must be distinct. The first failure is
/// returned and nothing else is looked at.
pub fn parse_server_args(raw: RawArgs) -> (r: Result<ServerArgs, ValidationError>)
    ensures
        r matches Ok(args) ==> server_args_outcome(raw@) == Ok::<
            ServerArgsView,
            ValidationErrorView,
        >(args@),
        r matches Err(e) ==> server_args_outcome(raw@) == Err::<
            ServerArgsView,
            ValidationErrorView,
        >(e@),
{
    let ghost view = raw@;
    let RawArgs { port, width, height, teams, clients_nb, freq } = raw;
    let port: Option<u16> = match port {
        Some(s) => match parse_port(s.as_str()) {
            Ok(v) => Some(v),
            Err(reason) => {
                return Err(ValidationError::InvalidValue { field: Field::Port, value: s, reason });
            },
        },
        None => None,
    };
    let width: Option<u8> = match width {
        Some(s) => match parse_width(s.as_str()) {
            Ok(v) => Some(v),
            Err(reason) => {
                return Err(ValidationError::InvalidValue { field: Field::Width, value: s, reason });
            },
        },
        None => None,
    };
    let height: Option<u8> = match height {
        Some(s) => match parse_height(s.as_str()) {
            Ok(v) => Some(v),
            Err(reason) => {
                return Err(
                    ValidationError::InvalidValue { field: Field::Height, value: s, reason },
                );
            },
        },
        None => None,
    };
    let clients_nb: Option<u64> = match clients_nb {
        Some(s) => match parse_nb_clients(s.as_str()) {
            Ok(v) => Some(v),
            Err(reason) => {
                return Err(
                    ValidationError::InvalidValue { field: Field::ClientsNb, value: s, reason },
                );
            },
        },
        None => None,
    };
    let freq: Option<u16> = match freq {
        Some(s) => match parse_freq(s.as_str()) {
            Ok(v) => Some(v),
            Err(reason) => {
                return Err(ValidationError::InvalidValue { field: Field::Freq, value: s, reason });
            },
        },
        None => None,
    };
    let port: u16 = match port {
        Some(v) => v,
        None => {
            return Err(ValidationError::MissingRequiredArgument { field: Field::Port });
        },
    };
    let width: u8 = match width {
        Some(v) => v,
        None => {
            return Err(ValidationError::MissingRequiredArgument { field: Field::Width });
        },
    };
    let height: u8 = match height {
        Some(v) => v,
        None => {
            return Err(ValidationError::MissingRequiredArgument { field: Field::Height });
        },
    };
    if teams.len() == 0 {
        return Err(ValidationError::MissingRequiredArgument { field: Field::Teams });
    }
    let clients_nb: u64 = match clients_nb {
        Some(v) => v,
        None => {
            return Err(ValidationError::MissingRequiredArgument { field: Field::ClientsNb });
        },
    };
    let freq: u16 = match freq {
        Some(v) => v,
        None => {
            return Err(ValidationError::MissingRequiredArgument { field: Field::Freq });
        },
    };
    match validate_unique_teams(teams.as_slice()) {
        Err(e) => Err(e),
        Ok(()) => {
            proof {
                lemma_first_repeat_none(view.teams);
            }
            Ok(ServerArgs { port, width, height, teams, clients_nb, freq })
        },
    }
}

} // verus!
