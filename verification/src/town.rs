//! The normalized town record built from one merged description, and the
//! tier classification used by the query surface.

use vstd::prelude::*;
use crate::text::{lower_of, lowercase};
use crate::extract::{
    extract_value_spec, residents_spec, resources_spec, trusted_spec, nation_spec, peaceful_spec,
    extract_value, extract_residents, extract_resources, extract_trusted_players, extract_nation,
    extract_peaceful,
};
use crate::currency::{currency_spec, parse_currency};
use crate::dates::{date_spec, parse_date};

verus! {

/// A town snapshot. Monetary amounts (`bank`, `upkeep`) are in hundredths of
/// the feed's currency unit; `area` and `coords` are not derivable from this
/// feed and default to zero; `founded` and `last_updated` are epoch seconds.
pub struct Town {
    pub town_name: String,
    pub town_name_lower: String,
    pub nation: Option<String>,
    pub mayor: String,
    pub peaceful: bool,
    pub culture: String,
    pub board: String,
    pub bank: i64,
    pub upkeep: i64,
    pub founded: i64,
    pub resources: Vec<String>,
    pub residents: Vec<String>,
    pub trusted_players: Vec<String>,
    pub area: i64,
    pub coords: (i64, i64),
    pub last_updated: i64,
}

impl Town {
    /// The record's key invariant: the lookup key is the lowercased name.
    pub open spec fn wf(&self) -> bool {
        self.town_name_lower@ == lower_of(self.town_name@)
    }
}

pub open spec fn opt_view(o: Option<String>) -> Option<Seq<char>> {
    match o {
        Some(s) => Some(s@),
        None => None,
    }
}

/// The affiliation a description denotes: the extracted text when non-empty,
/// absent otherwise (absence means unaffiliated).
pub open spec fn affiliation_spec(desc: Seq<char>) -> Option<Seq<char>> {
    if nation_spec(desc).len() > 0 {
        Some(nation_spec(desc))
    } else {
        None
    }
}

pub open spec fn list_matches(v: Seq<String>, m: Seq<Seq<char>>) -> bool {
    v.len() == m.len() && (forall|i: int| 0 <= i < v.len() ==> v[i]@ == m[i])
}

/// Every field of a town record, as a function of the entity name, the merged
/// description, and the persistence-time clock reading.
pub open spec fn built_from(t: Town, name: Seq<char>, desc: Seq<char>, now: i64) -> bool {
    &&& t.town_name@ == name
    &&& t.town_name_lower@ == lower_of(name)
    &&& opt_view(t.nation) == affiliation_spec(desc)
    &&& t.mayor@ == extract_value_spec(desc, "Mayor"@)
    &&& t.peaceful == peaceful_spec(desc)
    &&& t.culture@ == extract_value_spec(desc, "Culture"@)
    &&& t.board@ == extract_value_spec(desc, "Board"@)
    &&& t.bank == currency_spec(extract_value_spec(desc, "Bank"@))
    &&& t.upkeep == currency_spec(extract_value_spec(desc, "Upkeep"@))
    &&& t.founded == date_spec(extract_value_spec(desc, "Founded"@))
    &&& list_matches(t.resources@, resources_spec(desc))
    &&& list_matches(t.residents@, residents_spec(desc))
    &&& list_matches(t.trusted_players@, trusted_spec(desc))
    &&& t.area == 0
    &&& t.coords.0 == 0
    &&& t.coords.1 == 0
    &&& t.last_updated == now
}

/// Builds the normalized record for one entity from its merged description.
/// `now` is the wall-clock reading that stamps the snapshot.
pub fn build_town(name: &str, desc: &str, now: i64) -> (t: Town)
    ensures
        built_from(t, name@, desc@, now),
        t.wf(),
{
    let bank = extract_value(desc, "Bank");
    let upkeep = extract_value(desc, "Upkeep");
    let culture = extract_value(desc, "Culture");
    let residents = extract_residents(desc);
    let mayor = extract_value(desc, "Mayor");
    let peaceful = extract_peaceful(desc);
    let board = extract_value(desc, "Board");
    let founded = extract_value(desc, "Founded");
    let resources = extract_resources(desc);
    let trusted_players = extract_trusted_players(desc);
    let nation = extract_nation(desc);
    let nation_opt: Option<String> = if nation.as_str().is_empty() {
        None
    } else {
        Some(nation)
    };
    Town {
        town_name: name.to_owned(),
        town_name_lower: lowercase(name),
        nation: nation_opt,
        mayor,
        peaceful,
        culture,
        board,
        bank: parse_currency(bank.as_str()),
        upkeep: parse_currency(upkeep.as_str()),
        founded: parse_date(founded.as_str()),
        resources,
        residents,
        trusted_players,
        area: 0,
        coords: (0, 0),
        last_updated: now,
    }
}

/// The tier title a resident count earns.
pub open spec fn tier_name(n: nat) -> Seq<char> {
    if n == 1 {
        "Homestead"@
    } else if 2 <= n <= 5 {
        "Hamlet"@
    } else if 6 <= n <= 9 {
        "Village"@
    } else if 10 <= n <= 15 {
        "Town"@
    } else if 16 <= n <= 21 {
        "Large Town"@
    } else if 22 <= n <= 27 {
        "City"@
    } else if 28 <= n <= 35 {
        "Large City"@
    } else if 36 <= n <= 53 {
        "Metropolis"@
    } else if 54 <= n <= 77 {
        "Conurbation"@
    } else if 78 <= n <= 99 {
        "Megalopolis"@
    } else {
        "Eperopolis"@
    }
}

/// Classifies a town by its resident count.
pub fn tier_title(residents_count: usize) -> (r: &'static str)
    ensures
        r@ == tier_name(residents_count as nat),
{
    if residents_count == 1 {
        "Homestead"
    } else if 2 <= residents_count && residents_count <= 5 {
        "Hamlet"
    } else if 6 <= residents_count && residents_count <= 9 {
        "Village"
    } else if 10 <= residents_count && residents_count <= 15 {
        "Town"
    } else if 16 <= residents_count && residents_count <= 21 {
        "Large Town"
    } else if 22 <= residents_count && residents_count <= 27 {
        "City"
    } else if 28 <= residents_count && residents_count <= 35 {
        "Large City"
    } else if 36 <= residents_count && residents_count <= 53 {
        "Metropolis"
    } else if 54 <= residents_count && residents_count <= 77 {
        "Conurbation"
    } else if 78 <= residents_count && residents_count <= 99 {
        "Megalopolis"
    } else {
        "Eperopolis"
    }
}

} // verus!
