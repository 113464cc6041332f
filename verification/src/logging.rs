//! What is logged, and where to.

use vstd::prelude::*;
use vstd::string::*;

use crate::config::text_of;
use crate::text::{chars_of, is_white_space, white_space};

verus! {

/// A piece between commas begins at `i`.
pub open spec fn begins_piece(level: Seq<char>, i: int) -> bool {
    0 <= i < level.len() && (i == 0 || level[i - 1] == ',')
}

/// No comma from `i` up to and with `j`.
pub open spec fn in_one_piece(level: Seq<char>, i: int, j: int) -> bool {
    0 <= i <= j < level.len() && forall|k: int| i <= k <= j ==> #[trigger] level[k] != ','
}

/// The characters at which a piece is cut.
pub open spec fn cuts(c: char) -> bool {
    c == '=' || c == '[' || c == ']' || c == '{' || c == '}'
}

/// In a piece between commas that begins with white space, all that comes before a character at
/// which the piece is cut is ASCII.
pub open spec fn splits_cleanly(level: Seq<char>) -> bool {
    forall|i: int, j: int, k: int|
        #![trigger begins_piece(level, i), in_one_piece(level, i, k), level[j]]
        begins_piece(level, i) && in_one_piece(level, i, k) && white_space(level[i])
            && cuts(level[k])
            && i <= j < k ==> level[j] <= '\u{7f}'
}

/// Whether in every piece between commas that begins with white space all that comes before a
/// character at which the piece is cut is ASCII.
pub fn has_clean_pieces(level: &str) -> (res: bool)
    ensures
        res == splits_cleanly(level@),
{
    let chars: Vec<char> = chars_of(level);
    let n: usize = chars.len();
    let mut blank: bool = false;
    let mut ascii: bool = true;
    let mut start: usize = 0;
    let mut k: usize = 0;
    let ghost mut foreign: int = 0;
    while k < n
        invariant
            start <= k <= n,
            n == chars@.len(),
            chars@ == level@,
            start == 0 || level@[start - 1] == ',',
            forall|m: int| start <= m < k ==> #[trigger] level@[m] != ',',
            blank == (start < k && white_space(level@[start as int])),
            ascii ==> forall|m: int| start <= m < k ==> #[trigger] level@[m] <= '\u{7f}',
            !ascii ==> start <= foreign < k && level@[foreign] > '\u{7f}',
            forall|i: int, j: int, m: int|
                #![trigger begins_piece(level@, i), in_one_piece(level@, i, m), level@[j]]
                begins_piece(level@, i) && in_one_piece(level@, i, m) && white_space(level@[i])
                    && cuts(level@[m]) && i <= j < m < k ==> level@[j] <= '\u{7f}',
        decreases n - k,
    {
        let c: char = chars[k];
        if c == ',' {
            blank = false;
            ascii = true;
            start = k + 1;
        } else {
            if k == start {
                blank = is_white_space(c);
            }
            if blank && !ascii && (c == '=' || c == '[' || c == ']' || c == '{' || c == '}') {
                assert(begins_piece(level@, start as int));
                assert(in_one_piece(level@, start as int, k as int));
                assert(level@[foreign] > '\u{7f}');
                return false;
            }
            proof {
                assert forall|i: int, j: int|
                    #![trigger begins_piece(level@, i), level@[j]]
                    begins_piece(level@, i) && in_one_piece(level@, i, k as int) && white_space(
                        level@[i],
                    ) && cuts(level@[k as int]) && i <= j < k implies level@[j] <= '\u{7f}' by {
                    if i < start {
                        assert(level@[start - 1] != ',');
                    } else if i > start {
                        assert(level@[i - 1] == ',');
                    }
                }
            }
            if c > '\u{7f}' {
                ascii = false;
                proof {
                    foreign = k as int;
                }
            }
        }
        proof {
            assert forall|i: int, j: int, m: int|
                #![trigger begins_piece(level@, i), in_one_piece(level@, i, m), level@[j]]
                begins_piece(level@, i) && in_one_piece(level@, i, m) && white_space(level@[i])
                    && cuts(level@[m]) && i <= j < m < k + 1 implies level@[j] <= '\u{7f}' by {
                if m == k {
                    assert(level@[m] != ',');
                }
            }
        }
        k += 1;
    }
    true
}

/// Whether `tracing_subscriber::EnvFilter::try_new` takes `directives`.
pub uninterp spec fn filter_accepts(directives: Seq<char>) -> bool;

/// `tracing_subscriber::EnvFilter::try_new`: whether a filter can be made from the directives. It
/// takes them apart at the commas, and cuts the pieces at some of the characters in `cuts`. In a
/// piece that begins with white space the cut is off to the front by the width of that white
/// space. It panics where that is within a character, which it is not where all that comes before
/// those characters is ASCII. Patterns for the values of fields are compiled; nothing
/// is said of the memory that this takes.
#[verifier::external_body]
fn accepts(directives: &str) -> (res: bool)
    requires
        splits_cleanly(directives@),
    ensures
        res == filter_accepts(directives@),
{
    tracing_subscriber::EnvFilter::try_new(directives).is_ok()
}

/// The directives to filter log records by.
pub struct Filter {
    /// The directives.
    pub directives: String,
    /// What to tell the user when these are not the directives that were asked for.
    pub warning: Option<String>,
}

/// The warning about a log level that is none.
pub open spec fn bad_level(level: Seq<char>) -> Seq<char> {
    "Warning: invalid log level '"@ + level + "', defaulting to 'info'"@
}

/// The filter for a log level, given whether the level is acceptable: the level itself, or
/// `info` in its place.
pub fn filter_for(level: &str, acceptable: bool) -> (res: Filter)
    ensures
        acceptable ==> res.directives@ == level@ && res.warning is None,
        !acceptable ==> res.directives@ == "info"@ && text_of(res.warning) == Some(
            bad_level(level@),
        ),
        acceptable ==> res.directives@ == level@ && res.warning is None,
        !acceptable ==> res.directives@ == "info"@ && (res.warning matches Some(text) && text@
            == "Warning: invalid log level '"@ + level@ + "', defaulting to 'info'"@),
{
    if acceptable {
        Filter { directives: level.to_owned(), warning: None }
    } else {
        let mut warning: String = "Warning: invalid log level '".to_owned();
        warning.append(level);
        warning.append("', defaulting to 'info'");
        Filter { directives: "info".to_owned(), warning: Some(warning) }
    }
}

/// The filter for a log level.
pub fn make_filter(level: &str) -> (res: Filter)
    requires
        splits_cleanly(level@),
    ensures
        filter_accepts(level@) ==> res.directives@ == level@ && res.warning is None,
        !filter_accepts(level@) ==> res.directives@ == "info"@ && text_of(res.warning) == Some(
            bad_level(level@),
        ),
        filter_accepts(level@) ==> res.directives@ == level@ && res.warning is None,
        !filter_accepts(level@) ==> res.directives@ == "info"@
            && (res.warning matches Some(text) && text@
            == "Warning: invalid log level '"@ + level@ + "', defaulting to 'info'"@),
{
    filter_for(level, accepts(level))
}

/// Where log records go.
#[derive(Clone, Copy, Debug, PartialEq, Eq, Structural)]
pub enum Sink {
    /// A file in the log directory, a new one each day.
    DailyFile,
    /// Stderr.
    Stderr,
}

/// A destination of log records.
#[derive(Clone, Copy, Debug, PartialEq, Eq, Structural)]
pub struct Layer {
    /// Where the records go.
    pub sink: Sink,
    /// Whether they are coloured.
    pub ansi: bool,
}

/// What is logged, and where to.
pub struct LogPlan {
    /// What is logged.
    pub filter: Filter,
    /// Where it goes.
    pub layers: Vec<Layer>,
    /// How the names of the log files begin.
    pub file_prefix: String,
}

/// The destinations: stderr in colour, after a plain file where there is a directory for it.
pub open spec fn layers_for(dir_ready: bool) -> Seq<Layer> {
    let stderr = Layer { sink: Sink::Stderr, ansi: true };
    if dir_ready {
        seq![Layer { sink: Sink::DailyFile, ansi: false }, stderr]
    } else {
        seq![stderr]
    }
}

/// What is logged and where to, given the filter and whether there is a log directory.
pub fn plan_for(filter: Filter, dir_ready: bool) -> (res: LogPlan)
    ensures
        res.filter == filter,
        res.layers@ == layers_for(dir_ready),
        res.file_prefix@ == "api2cli.log"@,
        dir_ready ==> res.layers@.len() == 2 && res.layers@[0] == (Layer {
            sink: Sink::DailyFile,
            ansi: false,
        }) && res.layers@[1] == (Layer { sink: Sink::Stderr, ansi: true }),
        !dir_ready ==> res.layers@.len() == 1 && res.layers@[0] == (Layer {
            sink: Sink::Stderr,
            ansi: true,
        }),
{
    let mut layers: Vec<Layer> = Vec::new();
    if dir_ready {
        layers.push(Layer { sink: Sink::DailyFile, ansi: false });
    }
    layers.push(Layer { sink: Sink::Stderr, ansi: true });
    LogPlan { filter, layers, file_prefix: "api2cli.log".to_owned() }
}

/// What is logged and where to, given the log level and whether there is a log directory.
pub fn init_logging(level: &str, dir_ready: bool) -> (res: LogPlan)
    requires
        splits_cleanly(level@),
    ensures
        filter_accepts(level@) ==> res.filter.directives@ == level@ && res.filter.warning is None,
        !filter_accepts(level@) ==> res.filter.directives@ == "info"@ && text_of(res.filter.warning)
            == Some(bad_level(level@)),
        res.layers@ == layers_for(dir_ready),
        res.file_prefix@ == "api2cli.log"@,
        filter_accepts(level@) ==> res.filter.directives@ == level@ && res.filter.warning is None,
        !filter_accepts(level@) ==> res.filter.directives@ == "info"@
            && (res.filter.warning matches Some(text) && text@
            == "Warning: invalid log level '"@ + level@ + "', defaulting to 'info'"@),
        dir_ready ==> res.layers@.len() == 2 && res.layers@[0] == (Layer {
            sink: Sink::DailyFile,
            ansi: false,
        }) && res.layers@[1] == (Layer { sink: Sink::Stderr, ansi: true }),
        !dir_ready ==> res.layers@.len() == 1 && res.layers@[0] == (Layer {
            sink: Sink::Stderr,
            ansi: true,
        }),
{
    plan_for(make_filter(level), dir_ready)
}

/// A level is clean if it is all ASCII, or holds no character at which a piece is cut, or begins no
/// piece with white space.
pub proof fn ordinary_levels_are_clean(level: Seq<char>)
    requires
        (forall|i: int| 0 <= i < level.len() ==> #[trigger] level[i] <= '\u{7f}') || (forall|i: int|
            0 <= i < level.len() ==> #[trigger] level[i] != '=' && level[i] != '['
                && level[i] != ']'
                && level[i] != '{' && level[i] != '}') || (forall|i: int|
            0 <= i < level.len() && (i == 0 || level[i - 1] == ',') ==> !white_space(
                #[trigger] level[i],
            )),
    ensures
        splits_cleanly(level),
{
}

/// A level is not clean if a piece in it that begins with white space holds a character outside
/// ASCII somewhere before one of the characters at which it is cut.
pub proof fn cuts_within_characters_are_found(level: Seq<char>, i: int, j: int, k: int)
    requires
        0 <= i <= j < k < level.len(),
        i == 0 || level[i - 1] == ',',
        white_space(level[i]),
        forall|m: int| i <= m <= k ==> #[trigger] level[m] != ',',
        level[j] > '\u{7f}',
        level[k] == '=' || level[k] == '[' || level[k] == ']' || level[k] == '{' || level[k] == '}',
    ensures
        !splits_cleanly(level),
{
    assert(begins_piece(level, i));
    assert(in_one_piece(level, i, k));
    assert(cuts(level[k]));
    assert(level[j] > '\u{7f}');
}

/// A level that is not clean has such a piece.
pub proof fn unclean_levels_have_such_a_piece(level: Seq<char>) -> (at: (int, int, int))
    requires
        !splits_cleanly(level),
    ensures
        0 <= at.0 <= at.1 < at.2 < level.len(),
        at.0 == 0 || level[at.0 - 1] == ',',
        white_space(level[at.0]),
        forall|m: int| at.0 <= m <= at.2 ==> #[trigger] level[m] != ',',
        level[at.1] > '\u{7f}',
        level[at.2] == '=' || level[at.2] == '[' || level[at.2] == ']' || level[at.2] == '{'
            || level[at.2] == '}',
{
    let (i, j, k) = choose|i: int, j: int, k: int|
        #![trigger begins_piece(level, i), in_one_piece(level, i, k), level[j]]
        begins_piece(level, i) && in_one_piece(level, i, k) && white_space(level[i])
            && cuts(level[k])
            && i <= j < k && !(level[j] <= '\u{7f}');
    (i, j, k)
}

} // verus!
