//! The mappings given in the configuration: entries of the form
//! `source_id:destination_id[:impersonation_endpoint][:all]` under keys that
//! begin with `THREAD_MAPPING_`.

use crate::endpoint::{is_webhook_url, webhook_shaped};
use crate::error::ConfigParseError;
use crate::message::{opt_text, texts};
use crate::registry::{Mapping, MappingRegistry, MappingView};
use crate::text::{chars_of, has_prefix, parse_unsigned, same_as_str, string_of, unsigned_of};
use vstd::prelude::*;
use vstd::string::StringExecFns;

pub mod laws;

verus! {

/// Whether a configuration key names a thread mapping.
pub open spec fn is_mapping_key(key: Seq<char>) -> bool {
    "THREAD_MAPPING_"@.is_prefix_of(key)
}

/// Whether the key of a configuration variable begins with `THREAD_MAPPING_`.
pub fn is_thread_mapping_key(key: &str) -> (yes: bool)
    ensures
        yes == is_mapping_key(key@),
{
    let chars = chars_of(key);
    let lead = chars_of("THREAD_MAPPING_");
    has_prefix(chars.as_slice(), lead.as_slice())
}

/// The line that records a mapping variable in the log.
pub open spec fn mapping_env_line(key: Seq<char>, value: Seq<char>) -> Seq<char> {
    "  env: "@ + key + "="@ + value
}

/// Writes the line that records a mapping variable in the log.
pub fn log_thread_mapping_env(key: &str, value: &str) -> (line: String)
    ensures
        line@ == mapping_env_line(key@, value@),
{
    let mut line = String::from_str("  env: ");
    line.append(key);
    line.append("=");
    line.append(value);
    line
}

/// Whether the colon at `i` parts two fields. The colon of a scheme, which
/// two slashes follow, does not: an address is one field.
pub open spec fn is_separator(s: Seq<char>, i: int) -> bool {
    s[i] == ':' && !(i + 2 < s.len() && s[i + 1] == '/' && s[i + 2] == '/')
}

/// Where the first separator at or after `from` stands; the length of `s` where there is none.
pub open spec fn next_separator(s: Seq<char>, from: int) -> int
    decreases s.len() - from,
{
    if from >= s.len() {
        s.len() as int
    } else if is_separator(s, from) {
        from
    } else {
        next_separator(s, from + 1)
    }
}

/// The fields of `s` from `from` on: what stands before the next separator,
/// then the fields after it. Beyond the end of `s` there are none.
pub open spec fn fields_from(s: Seq<char>, from: int) -> Seq<Seq<char>>
    decreases s.len() - from,
{
    let end = next_separator(s, from);
    if from > s.len() || end < from {
        Seq::empty()
    } else if end >= s.len() {
        seq![s.subrange(from, s.len() as int)]
    } else {
        seq![s.subrange(from, end)] + fields_from(s, end + 1)
    }
}

/// The fields of an entry: what stands between its separators.
pub open spec fn mapping_fields(entry: Seq<char>) -> Seq<Seq<char>> {
    fields_from(entry, 0)
}

/// An entry has its two identifiers, and two options at most.
pub open spec fn valid_field_count(n: nat) -> bool {
    2 <= n <= 4
}

/// What the fields after the identifiers ask for: whether replays may be
/// asked for, and the address offered as endpoint if there is one. The word
/// `all` allows replays, before or after the address; any other field is the
/// address. Two addresses, or `all` twice, ask for nothing that makes sense.
pub open spec fn options_of(options: Seq<Seq<char>>) -> Option<(bool, Option<Seq<char>>)> {
    if options.len() == 0 {
        Some((false, None))
    } else if options.len() == 1 {
        if options[0] == "all"@ {
            Some((true, None))
        } else {
            Some((false, Some(options[0])))
        }
    } else if options.len() == 2 {
        if options[0] == "all"@ && options[1] != "all"@ {
            Some((true, Some(options[1])))
        } else if options[1] == "all"@ && options[0] != "all"@ {
            Some((true, Some(options[0])))
        } else {
            None
        }
    } else {
        None
    }
}

/// What an entry was read as.
pub struct EntryView {
    pub mapping: MappingView,
    /// The address that was offered as endpoint and turned down for its shape.
    pub rejected_endpoint: Option<Seq<char>>,
}

/// What an entry says.
///
/// The first two fields are the source and the destination. An address that
/// does not have the shape of an endpoint is set aside: the mapping stands
/// without endpoint.
pub open spec fn entry_of(entry: Seq<char>) -> Result<EntryView, ConfigParseError> {
    let fields = mapping_fields(entry);
    if !valid_field_count(fields.len()) {
        Err(ConfigParseError::FieldCount)
    } else {
        match (unsigned_of(fields[0]), unsigned_of(fields[1]), options_of(fields.skip(2))) {
            (None, _, _) => Err(ConfigParseError::SourceId),
            (Some(_), None, _) => Err(ConfigParseError::DestinationId),
            (Some(_), Some(_), None) => Err(ConfigParseError::FieldCount),
            (Some(source_id), Some(destination_id), Some((backfill_on_demand, offered))) => {
                let accepted = offered is Some && is_webhook_url(offered.unwrap());
                Ok(
                    EntryView {
                        mapping: MappingView {
                            source_id,
                            destination_id,
                            backfill_on_demand,
                            impersonation_endpoint: if accepted {
                                offered
                            } else {
                                None
                            },
                        },
                        rejected_endpoint: if accepted {
                            None
                        } else {
                            offered
                        },
                    },
                )
            },
        }
    }
}

/// An entry as it was read.
#[derive(Clone, Debug, PartialEq, Eq)]
pub struct ParsedEntry {
    pub mapping: Mapping,
    /// The address that was offered as endpoint and turned down for its shape.
    pub rejected_endpoint: Option<String>,
}

impl View for ParsedEntry {
    type V = EntryView;

    open spec fn view(&self) -> EntryView {
        EntryView {
            mapping: self.mapping@,
            rejected_endpoint: opt_text(self.rejected_endpoint),
        }
    }
}

/// What the outcome of reading an entry says.
pub open spec fn parsed_view(r: Result<ParsedEntry, ConfigParseError>) -> Result<
    EntryView,
    ConfigParseError,
> {
    match r {
        Ok(entry) => Ok(entry@),
        Err(e) => Err(e),
    }
}

/// Cuts an entry into its fields.
pub fn split_fields(entry: &str) -> (fields: Vec<String>)
    ensures
        texts(fields@) == mapping_fields(entry@),
{
    let chars = chars_of(entry);
    let n: usize = chars.len();
    let mut fields: Vec<String> = Vec::new();
    let mut start: usize = 0;
    let mut i: usize = 0;
    assert(texts(fields@) =~= Seq::empty());
    while i < n
        invariant
            start <= i <= n,
            n == chars.len(),
            chars@ == entry@,
            next_separator(chars@, start as int) == next_separator(chars@, i as int),
            texts(fields@) + fields_from(chars@, start as int) == mapping_fields(chars@),
        decreases n - i,
    {
        let parts: bool = chars[i] == ':' && !(n - i > 2 && chars[i + 1] == '/' && chars[i + 2]
            == '/');
        if parts {
            let field = string_of(vstd::slice::slice_subrange(chars.as_slice(), start, i));
            proof {
                assert(is_separator(chars@, i as int));
                assert(next_separator(chars@, start as int) == i);
                assert(texts(fields@.push(field)) =~= texts(fields@) + seq![
                    chars@.subrange(start as int, i as int),
                ]);
                assert(texts(fields@) + (seq![chars@.subrange(start as int, i as int)]
                    + fields_from(chars@, i + 1)) == texts(fields@) + seq![
                    chars@.subrange(start as int, i as int),
                ] + fields_from(chars@, i + 1));
            }
            fields.push(field);
            start = i + 1;
        }
        i = i + 1;
    }
    let field = string_of(vstd::slice::slice_subrange(chars.as_slice(), start, n));
    proof {
        assert(next_separator(chars@, start as int) == n);
        assert(texts(fields@.push(field)) =~= texts(fields@) + seq![
            chars@.subrange(start as int, n as int),
        ]);
    }
    fields.push(field);
    fields
}

/// Whether an entry has a number of fields that the grammar allows.
pub fn is_valid_thread_mapping_format(parts: &[String]) -> (valid: bool)
    ensures
        valid == valid_field_count(parts@.len()),
{
    !(parts.len() < 2 || parts.len() > 4)
}

/// Reads the two identifiers of an entry. Both must be unsigned 64-bit numbers.
pub fn parse_ids(thread_id_str: &str, channel_id_str: &str) -> (ids: Option<(u64, u64)>)
    ensures
        ids == match (unsigned_of(thread_id_str@), unsigned_of(channel_id_str@)) {
            (Some(thread_id), Some(channel_id)) => Some((thread_id, channel_id)),
            _ => None::<(u64, u64)>,
        },
{
    let thread_chars = chars_of(thread_id_str);
    let channel_chars = chars_of(channel_id_str);
    match (parse_unsigned(thread_chars.as_slice()), parse_unsigned(channel_chars.as_slice())) {
        (Some(thread_id), Some(channel_id)) => Some((thread_id, channel_id)),
        _ => None,
    }
}

fn is_all(field: &String) -> (yes: bool)
    ensures
        yes == (field@ == "all"@),
{
    let chars = chars_of(field.as_str());
    same_as_str(chars.as_slice(), "all")
}

/// Reads the fields after the identifiers.
fn parse_options(fields: &Vec<String>) -> (options: Option<(bool, Option<String>)>)
    requires
        valid_field_count(fields@.len()),
    ensures
        match options {
            Some((flag, offered)) => options_of(texts(fields@).skip(2)) == Some(
                (flag, opt_text(offered)),
            ),
            None => options_of(texts(fields@).skip(2)) is None,
        },
{
    let ghost options = texts(fields@).skip(2);
    if fields.len() == 2 {
        Some((false, None))
    } else if fields.len() == 3 {
        assert(options[0] == fields@[2]@);
        if is_all(&fields[2]) {
            Some((true, None))
        } else {
            Some((false, Some(fields[2].clone())))
        }
    } else {
        assert(options[0] == fields@[2]@);
        assert(options[1] == fields@[3]@);
        let first: bool = is_all(&fields[2]);
        let second: bool = is_all(&fields[3]);
        if first && !second {
            Some((true, Some(fields[3].clone())))
        } else if second && !first {
            Some((true, Some(fields[2].clone())))
        } else {
            None
        }
    }
}

/// Reads one mapping entry.
pub fn parse_thread_mapping_entry(entry: &str) -> (parsed: Result<ParsedEntry, ConfigParseError>)
    ensures
        parsed_view(parsed) == entry_of(entry@),
{
    let fields = split_fields(entry);
    if !is_valid_thread_mapping_format(fields.as_slice()) {
        return Err(ConfigParseError::FieldCount);
    }
    assert(texts(fields@)[0] == fields@[0]@);
    assert(texts(fields@)[1] == fields@[1]@);
    let source_chars = chars_of(fields[0].as_str());
    let source_id: u64 = match parse_unsigned(source_chars.as_slice()) {
        Some(id) => id,
        None => {
            return Err(ConfigParseError::SourceId);
        },
    };
    let destination_chars = chars_of(fields[1].as_str());
    let destination_id: u64 = match parse_unsigned(destination_chars.as_slice()) {
        Some(id) => id,
        None => {
            return Err(ConfigParseError::DestinationId);
        },
    };
    let (backfill_on_demand, offered) = match parse_options(&fields) {
        Some(options) => options,
        None => {
            return Err(ConfigParseError::FieldCount);
        },
    };
    let accepted: bool = match &offered {
        Some(address) => {
            let chars = chars_of(address.as_str());
            webhook_shaped(chars.as_slice())
        },
        None => false,
    };
    let (impersonation_endpoint, rejected_endpoint) = if accepted {
        (offered, None)
    } else {
        (None, offered)
    };
    Ok(
        ParsedEntry {
            mapping: Mapping {
                source_id,
                destination_id,
                backfill_on_demand,
                impersonation_endpoint,
            },
            rejected_endpoint,
        },
    )
}

/// The mappings that a list of configuration variables gives: every entry
/// under a mapping key that can be read, a later one in place of an earlier
/// one for the same source. Entries that cannot be read are passed over.
pub open spec fn mappings_of(vars: Seq<(Seq<char>, Seq<char>)>) -> Map<u64, MappingView>
    decreases vars.len(),
{
    if vars.len() == 0 {
        Map::empty()
    } else {
        let before = mappings_of(vars.drop_last());
        let (key, value) = vars.last();
        match entry_of(value) {
            Ok(entry) if is_mapping_key(key) => before.insert(
                entry.mapping.source_id,
                entry.mapping,
            ),
            _ => before,
        }
    }
}

/// The keys and values of a list of variables as text.
pub open spec fn var_texts(vars: Seq<(String, String)>) -> Seq<(Seq<char>, Seq<char>)> {
    Seq::new(vars.len(), |i: int| (vars[i].0@, vars[i].1@))
}

/// Reads the mappings out of the variables of the configuration, given as
/// pairs of key and value.
pub fn parse_thread_mappings(vars: &[(String, String)]) -> (registry: MappingRegistry)
    ensures
        registry@ == mappings_of(var_texts(vars@)),
{
    let mut registry = MappingRegistry::new();
    let mut i: usize = 0;
    let ghost all = var_texts(vars@);
    assert(all.take(0) =~= Seq::empty());
    while i < vars.len()
        invariant
            i <= vars.len(),
            all == var_texts(vars@),
            registry@ == mappings_of(all.take(i as int)),
        decreases vars.len() - i,
    {
        proof {
            let next = all.take(i + 1);
            assert(next.drop_last() == all.take(i as int));
            assert(next.last() == (vars@[i as int].0@, vars@[i as int].1@));
        }
        if is_thread_mapping_key(vars[i].0.as_str()) {
            match parse_thread_mapping_entry(vars[i].1.as_str()) {
                Ok(entry) => {
                    registry.insert(entry.mapping);
                },
                Err(_) => {},
            }
        }
        i = i + 1;
    }
    assert(all.take(vars.len() as int) == all);
    registry
}

} // verus!
