//! Reading `nix.conf`-style configuration text.
//!
//! The format is line-oriented: comments start at `#`, blank lines are
//! skipped, `key = value` sets a key, `extra-key = value` appends to it,
//! and `include`/`!include` pull in another file. Looking a key up merges
//! every assignment and append for it: the last plain assignment wins as
//! the base value, and every append is joined to it, space-separated, in
//! order. Includes are not resolved here; meeting one during a lookup is
//! an error, since the lookup would otherwise be computed from an
//! incomplete configuration.

use vstd::prelude::*;

verus! {

use vstd::string::StrSliceExecFns;
use vstd::string::StringExecFns;
use crate::text::{
    first_index_of, has_prefix, lines_spec, split_lines, split_once_char, split_once_spec,
    str_eq, string_views, strip_prefix_str, trim, trim_spec,
};

/// One meaningful line of configuration text.
#[derive(Debug)]
pub enum Value {
    /// `key = value`: sets `key`, replacing any earlier assignment.
    Assign { key: String, value: String },
    /// `extra-key = value`: appends to the set value of `key`.
    Append { key: String, value: String },
    /// `include path`: pulls in another file, an error if it is missing.
    Include { path: String },
    /// `!include path`: pulls in another file if it exists.
    IncludeIfPresent { path: String },
}

/// The mathematical model of a [`Value`]: the same shape over character
/// sequences.
pub enum ValueModel {
    Assign { key: Seq<char>, value: Seq<char> },
    Append { key: Seq<char>, value: Seq<char> },
    Include { path: Seq<char> },
    IncludeIfPresent { path: Seq<char> },
}

impl View for Value {
    type V = ValueModel;

    open spec fn view(&self) -> ValueModel {
        match self {
            Value::Assign { key, value } => ValueModel::Assign { key: key@, value: value@ },
            Value::Append { key, value } => ValueModel::Append { key: key@, value: value@ },
            Value::Include { path } => ValueModel::Include { path: path@ },
            Value::IncludeIfPresent { path } => ValueModel::IncludeIfPresent { path: path@ },
        }
    }
}

/// A line that fits none of the recognized shapes.
#[derive(Debug)]
pub struct LineError {
    pub invalid_line: String,
}

/// Why looking a key up in configuration text failed.
#[derive(Debug)]
pub enum GetValueError {
    /// Some line fits no recognized shape.
    Invalid { line: String },
    /// The text includes another file, so the lookup would be computed
    /// from an incomplete configuration.
    UnresolvedInclude { path: String },
}

/// The mathematical model of a [`GetValueError`].
pub enum GetValueErrorModel {
    Invalid { line: Seq<char> },
    UnresolvedInclude { path: Seq<char> },
}

impl View for GetValueError {
    type V = GetValueErrorModel;

    open spec fn view(&self) -> GetValueErrorModel {
        match self {
            GetValueError::Invalid { line } => GetValueErrorModel::Invalid { line: line@ },
            GetValueError::UnresolvedInclude { path } => GetValueErrorModel::UnresolvedInclude {
                path: path@,
            },
        }
    }
}

impl LineError {
    /// The human-readable description of the error.
    pub fn message(&self) -> (r: String)
        ensures
            r@ == "configuration contained an invalid line: `"@ + self.invalid_line@ + "`"@,
    {
        let mut r = String::from_str("configuration contained an invalid line: `");
        r.append(self.invalid_line.as_str());
        r.append("`");
        r
    }
}

impl GetValueError {
    /// The human-readable description of the error.
    pub fn message(&self) -> (r: String)
        ensures
            match self {
                GetValueError::Invalid { line } => r@ == "configuration contained an invalid line: `"@
                    + line@ + "`"@,
                GetValueError::UnresolvedInclude { path } => r@
                    == "configuration contained an include to "@ + path@
                    + " which wasn't resolved"@,
            },
    {
        match self {
            GetValueError::Invalid { line } => {
                let mut r = String::from_str("configuration contained an invalid line: `");
                r.append(line.as_str());
                r.append("`");
                r
            },
            GetValueError::UnresolvedInclude { path } => {
                let mut r = String::from_str("configuration contained an include to ");
                r.append(path.as_str());
                r.append(" which wasn't resolved");
                r
            },
        }
    }
}

/// What parsing one line of configuration text yields: nothing for blank
/// lines and comments, a [`ValueModel`] for a recognized line, or the
/// trimmed line itself as the error for anything else.
pub open spec fn parse_line_spec(line: Seq<char>) -> Result<Option<ValueModel>, Seq<char>> {
    let content = match first_index_of(line, '#') {
        None => line,
        Some(i) => line.take(i),
    };
    let t = trim_spec(content);
    if t.len() == 0 {
        Ok(None)
    } else {
        match split_once_spec(t, '=') {
            Some(kv) => {
                let key = trim_spec(kv.0);
                let value = trim_spec(kv.1);
                if has_prefix(key, "extra-"@) {
                    Ok(
                        Some(
                            ValueModel::Append {
                                key: key.skip("extra-"@.len() as int),
                                value,
                            },
                        ),
                    )
                } else {
                    Ok(Some(ValueModel::Assign { key, value }))
                }
            },
            None => match split_once_spec(t, ' ') {
                Some(wp) => if wp.0 == "include"@ {
                    Ok(Some(ValueModel::Include { path: wp.1 }))
                } else if wp.0 == "!include"@ {
                    Ok(Some(ValueModel::IncludeIfPresent { path: wp.1 }))
                } else {
                    Err(t)
                },
                None => Err(t),
            },
        }
    }
}

/// Parse a single line of configuration text.
///
/// Comments and surrounding whitespace are dropped; a blank result is
/// `Ok(None)`. `key = value` assigns (an `extra-` prefix on the key makes
/// it an append to the unprefixed key), `include`/`!include` name another
/// file, and any other non-blank line is an error carrying the trimmed
/// line.
pub fn parse_line(line: &str) -> (r: Result<Option<Value>, LineError>)
    ensures
        match r {
            Ok(None) => parse_line_spec(line@) == Ok::<Option<ValueModel>, Seq<char>>(None),
            Ok(Some(v)) => parse_line_spec(line@) == Ok::<Option<ValueModel>, Seq<char>>(
                Some(v@),
            ),
            Err(e) => parse_line_spec(line@) == Err::<Option<ValueModel>, Seq<char>>(
                e.invalid_line@,
            ),
        },
{
    let content = match split_once_char(line, '#') {
        Some((before, _)) => before,
        None => line,
    };
    let t = trim(content);
    if t.unicode_len() == 0 {
        return Ok(None);
    }
    match split_once_char(t, '=') {
        Some((k, v)) => {
            let key = trim(k);
            let value = trim(v);
            match strip_prefix_str(key, "extra-") {
                Some(stripped) => Ok(
                    Some(Value::Append { key: stripped.to_owned(), value: value.to_owned() }),
                ),
                None => Ok(Some(Value::Assign { key: key.to_owned(), value: value.to_owned() })),
            }
        },
        None => match split_once_char(t, ' ') {
            Some((word, path)) => {
                if str_eq(word, "include") {
                    Ok(Some(Value::Include { path: path.to_owned() }))
                } else if str_eq(word, "!include") {
                    Ok(Some(Value::IncludeIfPresent { path: path.to_owned() }))
                } else {
                    Err(LineError { invalid_line: t.to_owned() })
                }
            },
            None => Err(LineError { invalid_line: t.to_owned() }),
        },
    }
}

/// The views of a vector of parsed values.
pub open spec fn value_views(values: Seq<Value>) -> Seq<ValueModel> {
    values.map_values(|v: Value| v@)
}

/// The assignments and appends for `key` among the given lines, in order,
/// or the first error: an unparsable line, or any include.
pub open spec fn collect_for_key(lines: Seq<Seq<char>>, key: Seq<char>) -> Result<
    Seq<ValueModel>,
    GetValueErrorModel,
>
    decreases lines.len(),
{
    if lines.len() == 0 {
        Ok(Seq::empty())
    } else {
        let rest = lines.drop_first();
        match parse_line_spec(lines[0]) {
            Err(t) => Err(GetValueErrorModel::Invalid { line: t }),
            Ok(None) => collect_for_key(rest, key),
            Ok(Some(v)) => match v {
                ValueModel::Assign { key: k, value: _ } => if k == key {
                    match collect_for_key(rest, key) {
                        Ok(tail) => Ok(seq![v] + tail),
                        Err(e) => Err(e),
                    }
                } else {
                    collect_for_key(rest, key)
                },
                ValueModel::Append { key: k, value: _ } => if k == key {
                    match collect_for_key(rest, key) {
                        Ok(tail) => Ok(seq![v] + tail),
                        Err(e) => Err(e),
                    }
                } else {
                    collect_for_key(rest, key)
                },
                ValueModel::Include { path } => Err(
                    GetValueErrorModel::UnresolvedInclude { path },
                ),
                ValueModel::IncludeIfPresent { path } => Err(
                    GetValueErrorModel::UnresolvedInclude { path },
                ),
            },
        }
    }
}

/// The value of the last plain assignment among the collected values.
pub open spec fn last_assign(values: Seq<ValueModel>) -> Option<Seq<char>>
    decreases values.len(),
{
    if values.len() == 0 {
        None
    } else {
        match values.last() {
            ValueModel::Assign { key: _, value } => Some(value),
            _ => last_assign(values.drop_last()),
        }
    }
}

/// Join every append value onto `acc`, in order, separating entries of
/// the growing space-separated list with single spaces.
pub open spec fn fold_appends(values: Seq<ValueModel>, acc: Seq<char>) -> Seq<char>
    decreases values.len(),
{
    if values.len() == 0 {
        acc
    } else {
        match values[0] {
            ValueModel::Append { key: _, value } => fold_appends(
                values.drop_first(),
                if acc.len() > 0 {
                    acc + " "@ + value
                } else {
                    value
                },
            ),
            _ => fold_appends(values.drop_first(), acc),
        }
    }
}

/// The merged value of `key` in `conf`: the last assignment's value as
/// the base, every append joined on, space-separated, in order — or the
/// first error among the lines.
pub open spec fn get_value_spec(conf: Seq<char>, key: Seq<char>) -> Result<
    Seq<char>,
    GetValueErrorModel,
> {
    match collect_for_key(lines_spec(conf), key) {
        Err(e) => Err(e),
        Ok(values) => {
            let base = match last_assign(values) {
                Some(v) => v,
                None => Seq::empty(),
            };
            Ok(fold_appends(values, base))
        },
    }
}

/// Look up the merged value of a single key in configuration text.
///
/// The key is matched after `extra-` normalization, so appends written
/// `extra-key = ...` count towards `key`. Merging needs the whole
/// configuration, so an unresolved `include`/`!include` line is an error,
/// as is any line that fits no recognized shape.
pub fn get_value(conf: &str, key: &str) -> (r: Result<String, GetValueError>)
    ensures
        match r {
            Ok(s) => get_value_spec(conf@, key@) == Ok::<Seq<char>, GetValueErrorModel>(s@),
            Err(e) => get_value_spec(conf@, key@) == Err::<Seq<char>, GetValueErrorModel>(e@),
        },
{
    let ghost all_lines = lines_spec(conf@);
    let lines = split_lines(conf);
    let mut values: Vec<Value> = Vec::new();
    proof {
        assert(all_lines.skip(0) =~= all_lines);
        match collect_for_key(all_lines, key@) {
            Ok(tail) => {
                assert(value_views(values@) + tail =~= tail);
            },
            Err(e) => {},
        }
    }
    let mut i: usize = 0;
    while i < lines.len()
        invariant
            string_views(lines@) == all_lines,
            all_lines == lines_spec(conf@),
            i <= lines@.len(),
            match collect_for_key(all_lines.skip(i as int), key@) {
                Ok(tail) => collect_for_key(all_lines, key@) == Ok::<
                    Seq<ValueModel>,
                    GetValueErrorModel,
                >(value_views(values@) + tail),
                Err(e) => collect_for_key(all_lines, key@) == Err::<
                    Seq<ValueModel>,
                    GetValueErrorModel,
                >(e),
            },
        decreases lines@.len() - i,
    {
        let ghost suffix = all_lines.skip(i as int);
        proof {
            assert(string_views(lines@)[i as int] == lines@[i as int]@);
            assert(suffix[0] == all_lines[i as int]);
            assert(suffix.drop_first() =~= all_lines.skip(i as int + 1));
        }
        match parse_line(lines[i].as_str()) {
            Err(le) => {
                return Err(GetValueError::Invalid { line: le.invalid_line });
            },
            Ok(None) => {
                i = i + 1;
            },
            Ok(Some(v)) => {
                match &v {
                    Value::Include { path } => {
                        return Err(GetValueError::UnresolvedInclude { path: path.clone() });
                    },
                    Value::IncludeIfPresent { path } => {
                        return Err(GetValueError::UnresolvedInclude { path: path.clone() });
                    },
                    _ => {},
                }
                let matched = match &v {
                    Value::Assign { key: k, value: _ } => str_eq(k.as_str(), key),
                    Value::Append { key: k, value: _ } => str_eq(k.as_str(), key),
                    _ => false,
                };
                if matched {
                    let ghost old_values = values@;
                    values.push(v);
                    proof {
                        assert(value_views(values@) =~= value_views(old_values) + seq![
                            values@.last()@,
                        ]);
                        match collect_for_key(all_lines.skip(i as int + 1), key@) {
                            Ok(tail) => {
                                assert(value_views(values@) + tail =~= value_views(old_values) + (
                                seq![values@.last()@] + tail));
                            },
                            Err(e) => {},
                        }
                    }
                }
                i = i + 1;
            },
        }
    }
    proof {
        assert(all_lines.skip(all_lines.len() as int) =~= Seq::<Seq<char>>::empty());
        assert(value_views(values@) + Seq::<ValueModel>::empty() =~= value_views(values@));
    }
    let ghost models = value_views(values@);
    // The base value: the last plain assignment wins.
    let mut latest: Option<String> = None;
    let mut j: usize = 0;
    while j < values.len()
        invariant
            j <= values@.len(),
            value_views(values@) == models,
            match latest {
                Some(s) => last_assign(models.take(j as int)) == Some(s@),
                None => last_assign(models.take(j as int)) is None,
            },
        decreases values@.len() - j,
    {
        proof {
            assert(models.take(j as int + 1).drop_last() =~= models.take(j as int));
            assert(models.take(j as int + 1).last() == values@[j as int]@);
        }
        match &values[j] {
            Value::Assign { key: _, value } => {
                latest = Some(value.clone());
            },
            _ => {},
        }
        j = j + 1;
    }
    proof {
        assert(models.take(models.len() as int) =~= models);
    }
    let ghost base = match last_assign(models) {
        Some(v) => v,
        None => Seq::<char>::empty(),
    };
    let mut acc: String = match latest {
        Some(s) => s,
        None => String::new(),
    };
    // Join every append onto the base, in order.
    let mut j: usize = 0;
    while j < values.len()
        invariant
            j <= values@.len(),
            value_views(values@) == models,
            fold_appends(models, base) == fold_appends(models.skip(j as int), acc@),
        decreases values@.len() - j,
    {
        proof {
            assert(models.skip(j as int)[0] == values@[j as int]@);
            assert(models.skip(j as int).drop_first() =~= models.skip(j as int + 1));
        }
        let ghost acc_before = acc@;
        match &values[j] {
            Value::Append { key: _, value } => {
                if acc.unicode_len() > 0 {
                    acc.append(" ");
                    acc.append(value.as_str());
                    proof {
                        assert(acc@ =~= acc_before + " "@ + value@);
                    }
                } else {
                    acc.append(value.as_str());
                    proof {
                        assert(acc@ =~= value@);
                    }
                }
            },
            _ => {},
        }
        j = j + 1;
    }
    proof {
        assert(models.skip(models.len() as int) =~= Seq::<ValueModel>::empty());
    }
    Ok(acc)
}

} // verus!
