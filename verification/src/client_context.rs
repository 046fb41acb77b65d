//! What the command line client is told about its output, and how it
//! lays out a list.
use vstd::prelude::*;
use vstd::string::{StrSliceExecFns, StringExecFns, StringSliceAdditionalSpecFns};

verus! {

/// The lower-case form of a text.
pub uninterp spec fn lowercase_text(text: Seq<char>) -> Seq<char>;

/// Turns a text into lower case with `str::to_lowercase`.
///
/// Trusted: the result depends on the text alone.
#[verifier::external_body]
fn to_lowercase(text: &str) -> (lower: String)
    ensures
        lower@ == lowercase_text(text@),
{
    text.to_lowercase()
}

/// What went wrong in the client.
#[derive(Debug, PartialEq, Eq)]
pub enum ClientError {
    /// Invalid output format
    OutputFormatError { format: String },
}

#[derive(Debug, Clone, Copy, PartialEq, Eq, Structural)]
pub enum OutputFormat {
    Json,
    Default,
}

/// The address of the server, in its parts.
#[derive(Debug, PartialEq, Eq)]
pub struct HostParts {
    pub scheme: Option<String>,
    /// The host and, where one is given, the port.
    pub authority: Option<(String, Option<u16>)>,
    pub path_and_query: Option<String>,
}

/// The port of the server where none is given.
pub const DEFAULT_PORT: u16 = 10124;

#[derive(Debug, PartialEq, Eq)]
pub struct Context {
    pub verbosity: u64,
    pub units: char,
    pub output: OutputFormat,
}

/// The format that a text in lower case names.
pub open spec fn format_named(lower: Seq<char>) -> Option<OutputFormat> {
    if lower == "json"@ {
        Some(OutputFormat::Json)
    } else if lower == "default"@ {
        Some(OutputFormat::Default)
    } else {
        None
    }
}

/// Whether a header asks for its column to be set to the right: it
/// begins with `>`.
pub open spec fn to_the_right(header: Seq<char>) -> bool {
    header.len() > 0 && header[0] == '>'
}

/// The title of a column: its header without the mark that sets it to
/// the right.
pub open spec fn title(header: Seq<char>) -> Seq<char> {
    if to_the_right(header) {
        header.subrange(1, header.len() as int)
    } else {
        header
    }
}

/// `count` spaces.
pub open spec fn spaces(count: int) -> Seq<char> {
    Seq::new(
        if count > 0 {
            count as nat
        } else {
            0
        },
        |i: int| ' ',
    )
}

/// A cell filled up with spaces to `width` characters: before the text
/// if the column is set to the right, else behind it.
pub open spec fn padded(text: Seq<char>, width: int, right: bool) -> Seq<char> {
    if right {
        spaces(width - text.len()) + text
    } else {
        text + spaces(width - text.len())
    }
}

impl ClientError {
    /// The text that the error names as no format.
    pub open spec fn format(self) -> Seq<char> {
        match self {
            ClientError::OutputFormatError { format } => format@,
        }
    }
}

impl OutputFormat {
    /// What `from_str` makes of a text, given its lower-case form.
    pub fn named(lower: String) -> (r: Result<OutputFormat, ClientError>)
        ensures
            match r {
                Ok(format) => format_named(lower@) == Some(format),
                Err(error) => format_named(lower@) is None && error.format() == lower@,
            },
    {
        if lower == "json".to_owned() {
            Ok(OutputFormat::Json)
        } else if lower == "default".to_owned() {
            Ok(OutputFormat::Default)
        } else {
            Err(ClientError::OutputFormatError { format: lower })
        }
    }

    /// The format that a text names, in whatever case: `json` or
    /// `default`.
    pub fn from_str(s: &str) -> (r: Result<OutputFormat, ClientError>)
        ensures
            match r {
                Ok(format) => format_named(lowercase_text(s@)) == Some(format),
                Err(error) => format_named(lowercase_text(s@)) is None && error.format()
                    == lowercase_text(s@),
            },
    {
        Self::named(to_lowercase(s))
    }
}

impl HostParts {
    /// The address of the server where none is given: the local host, at
    /// the default port.
    pub fn local() -> (parts: HostParts)
        ensures
            parts.scheme matches Some(scheme) && scheme@ == "http"@,
            parts.authority matches Some((host, port)) && host@ == "127.0.0.1"@ && port == Some(
                DEFAULT_PORT,
            ),
            parts.path_and_query is None,
    {
        HostParts {
            scheme: Some("http".to_owned()),
            authority: Some(("127.0.0.1".to_owned(), Some(DEFAULT_PORT))),
            path_and_query: None,
        }
    }

    /// Ensure the provided host is defaulted & normalized to what we
    /// expect: an address without scheme is taken for `http`, a host
    /// without port gets the default port, and an address without path
    /// gets the path `/`.
    pub fn normalized(self) -> (parts: HostParts)
        ensures
            match self.scheme {
                Some(scheme) => parts.scheme == Some(scheme),
                None => parts.scheme matches Some(scheme) && scheme@ == "http"@,
            },
            match self.authority {
                Some((host, port)) => parts.authority == Some(
                    (
                        host,
                        Some(
                            match port {
                                Some(port) => port,
                                None => DEFAULT_PORT,
                            },
                        ),
                    ),
                ),
                None => parts.authority is None,
            },
            match self.path_and_query {
                Some(path) => parts.path_and_query == Some(path),
                None => parts.path_and_query matches Some(path) && path@ == "/"@,
            },
    {
        HostParts {
            scheme: match self.scheme {
                Some(scheme) => Some(scheme),
                None => Some("http".to_owned()),
            },
            authority: match self.authority {
                Some((host, port)) => Some(
                    (
                        host,
                        Some(
                            match port {
                                Some(port) => port,
                                None => DEFAULT_PORT,
                            },
                        ),
                    ),
                ),
                None => None,
            },
            path_and_query: match self.path_and_query {
                Some(path) => Some(path),
                None => Some("/".to_owned()),
            },
        }
    }
}

impl Context {
    /// The context for what the command line says: `quiet` silences the
    /// client, each `verbose` makes it say more; `units` names the units
    /// for sizes by its first character, bytes if it is not given;
    /// `output` names the format, and must be given.
    pub fn new(quiet: bool, verbose: u64, units: Option<&str>, output: Option<&str>) -> (r: Result<
        Context,
        ClientError,
    >)
        requires
            verbose < u64::MAX,
        ensures
            match r {
                Ok(context) => {
                    &&& context.verbosity == if quiet {
                        0
                    } else {
                        verbose + 1
                    }
                    &&& context.units == match units {
                        Some(text) if text@.len() > 0 => text@[0],
                        _ => 'b',
                    }
                    &&& output matches Some(text)
                    &&& format_named(lowercase_text(text@)) == Some(context.output)
                },
                Err(error) => match output {
                    None => error.format() == "<none>"@,
                    Some(text) => format_named(lowercase_text(text@)) is None && error.format()
                        == lowercase_text(text@),
                },
            },
    {
        let verbosity = if quiet {
            0
        } else {
            verbose + 1
        };
        let units = match units {
            Some(text) => {
                if text.unicode_len() > 0 {
                    text.get_char(0)
                } else {
                    'b'
                }
            },
            None => 'b',
        };
        let output = match output {
            Some(text) => text,
            None => {
                return Err(ClientError::OutputFormatError { format: "<none>".to_owned() });
            },
        };
        match OutputFormat::from_str(output) {
            Ok(output) => Ok(Context { verbosity, units, output }),
            Err(error) => Err(error),
        }
    }

    /// Whether messages of the first level are shown.
    pub fn v1(&self) -> (shown: bool)
        ensures
            shown == (self.verbosity > 0),
    {
        self.verbosity > 0
    }

    /// Whether messages of the second level are shown.
    pub fn v2(&self) -> (shown: bool)
        ensures
            shown == (self.verbosity > 1),
    {
        self.verbosity > 1
    }

    /// A cell filled up with spaces to `width` characters.
    pub fn pad(text: &str, width: usize, right: bool) -> (cell: String)
        ensures
            cell@ == padded(text@, width as int, right),
    {
        let len = text.unicode_len();
        let mut fill = String::new();
        let mut i: usize = len;
        proof {
            reveal_strlit(" ");
            assert(fill@ =~= spaces(0));
        }
        while i < width
            invariant
                len == text@.len(),
                len <= i,
                i <= width || i == len,
                fill@ == spaces(i - len),
                " "@ == seq![' '],
            decreases width - i,
        {
            fill.append(" ");
            i = i + 1;
            assert(fill@ =~= spaces(i - len));
        }
        assert(fill@ =~= spaces(width - len));
        if right {
            fill.append(text);
            fill
        } else {
            let mut cell = text.to_owned();
            cell.append(fill.as_str());
            cell
        }
    }

    /// The title of a column and whether the column is set to the right.
    pub fn column(header: &str) -> (r: (bool, String))
        ensures
            r.0 == to_the_right(header@),
            r.1@ == title(header@),
    {
        let len = header.unicode_len();
        if len > 0 && header.get_char(0) == '>' {
            (true, header.substring_char(1, len).to_owned())
        } else {
            (false, header.to_owned())
        }
    }
}


/// The texts of a row of cells.
pub open spec fn cells(row: Seq<String>) -> Seq<Seq<char>> {
    row.map_values(|cell: String| cell@)
}

/// The texts of the rows of a table.
pub open spec fn table(rows: Seq<Vec<String>>) -> Seq<Seq<Seq<char>>> {
    rows.map_values(|row: Vec<String>| cells(row@))
}

/// The size of a cell: the number of bytes of its text.
pub open spec fn cell_size(text: Seq<char>) -> usize {
    vstd::utf8::encode_utf8(text).len() as usize
}

/// The width of the column `c`: the size of the largest of its cells in
/// the first `upto` rows.
pub open spec fn column_width(rows: Seq<Seq<Seq<char>>>, c: int, upto: int) -> usize
    decreases upto,
{
    if upto <= 0 {
        0
    } else {
        let rest = column_width(rows, c, upto - 1);
        let own = cell_size(rows[upto - 1][c]);
        if own > rest {
            own
        } else {
            rest
        }
    }
}

/// The titles of the columns.
pub open spec fn titles(headers: Seq<Seq<char>>) -> Seq<Seq<char>> {
    headers.map_values(|header: Seq<char>| title(header))
}

/// The first `upto` cells of a row, each filled up to the width of its
/// column, with a space between each two.
pub open spec fn row_line(
    row: Seq<Seq<char>>,
    widths: Seq<usize>,
    rights: Seq<bool>,
    upto: int,
) -> Seq<char>
    decreases upto,
{
    if upto <= 0 {
        Seq::empty()
    } else if upto == 1 {
        padded(row[0], widths[0] as int, rights[0])
    } else {
        row_line(row, widths, rights, upto - 1) + seq![' '] + padded(
            row[upto - 1],
            widths[upto - 1] as int,
            rights[upto - 1],
        )
    }
}

/// The rows that are printed: with `verbose` the titles before the data,
/// else the data alone.
pub open spec fn printed_rows(verbose: bool, headers: Seq<Seq<char>>, data: Seq<Seq<Seq<char>>>) -> Seq<
    Seq<Seq<char>>,
> {
    if verbose {
        seq![titles(headers)] + data
    } else {
        data
    }
}

/// The widths of the columns: with `verbose` each as wide as its largest
/// cell, the title among them; else none has a width.
pub open spec fn widths_of(verbose: bool, headers: Seq<Seq<char>>, data: Seq<Seq<Seq<char>>>) -> Seq<
    usize,
> {
    let rows = printed_rows(verbose, headers, data);
    Seq::new(
        headers.len(),
        |c: int|
            if verbose {
                column_width(rows, c, rows.len() as int)
            } else {
                0
            },
    )
}

/// Which columns are set to the right: with `verbose` those whose header
/// asks for it; else none.
pub open spec fn rights_of(verbose: bool, headers: Seq<Seq<char>>) -> Seq<bool> {
    Seq::new(headers.len(), |c: int| verbose && to_the_right(headers[c]))
}

/// The lines of a list.
pub open spec fn list_lines(verbose: bool, headers: Seq<Seq<char>>, data: Seq<Seq<Seq<char>>>) -> Seq<
    Seq<char>,
> {
    let rows = printed_rows(verbose, headers, data);
    Seq::new(
        rows.len(),
        |r: int|
            row_line(
                rows[r],
                widths_of(verbose, headers, data),
                rights_of(verbose, headers),
                headers.len() as int,
            ),
    )
}

impl Context {
    /// One line of a list.
    pub fn row(row: &Vec<String>, widths: &Vec<usize>, rights: &Vec<bool>) -> (line: String)
        requires
            row@.len() == widths@.len(),
            row@.len() == rights@.len(),
        ensures
            line@ == row_line(cells(row@), widths@, rights@, row@.len() as int),
    {
        let ghost texts = cells(row@);
        let ghost sizes = widths@;
        let mut line = String::new();
        let mut c: usize = 0;
        proof {
            reveal_strlit(" ");
        }
        while c < row.len()
            invariant
                c <= row@.len(),
                row@.len() == widths@.len(),
                row@.len() == rights@.len(),
                texts == cells(row@),
                sizes == widths@,
                line@ == row_line(texts, sizes, rights@, c as int),
                " "@ == seq![' '],
            decreases row@.len() - c,
        {
            let cell = Self::pad(row[c].as_str(), widths[c], rights[c]);
            assert(texts[c as int] == row@[c as int]@);
            assert(sizes[c as int] == widths@[c as int]);
            if c > 0 {
                line.append(" ");
            }
            line.append(cell.as_str());
            proof {
                if c == 0 {
                    assert(line@ =~= cell@);
                }
            }
            c = c + 1;
        }
        line
    }

    /// The lines of a list: the rows of `data`, under the titles of the
    /// columns if the client is not silenced. Each column is as wide as
    /// its largest cell, and set to the left unless its header asks
    /// otherwise. A silenced client prints the cells as they are.
    pub fn print_list(&self, headers: Vec<&str>, data: Vec<Vec<String>>) -> (lines: Vec<String>)
        requires
            data@.len() != 0,
            forall|r: int| 0 <= r < data@.len() ==> (#[trigger] data@[r])@.len() == headers@.len(),
        ensures
            lines@.map_values(|line: String| line@) == list_lines(
                self.verbosity > 0,
                headers@.map_values(|header: &str| header@),
                table(data@),
            ),
    {
        let verbose = self.verbosity > 0;
        let ghost heads = headers@.map_values(|header: &str| header@);
        let ghost body = table(data@);
        let ghost rows = printed_rows(verbose, heads, body);
        let ncols = headers.len();
        // titles and alignment
        let mut first: Vec<String> = Vec::new();
        let mut rights: Vec<bool> = Vec::new();
        let mut widths: Vec<usize> = Vec::new();
        let mut c: usize = 0;
        while c < ncols
            invariant
                c <= ncols,
                ncols == headers@.len(),
                heads == headers@.map_values(|header: &str| header@),
                first@.len() == c,
                rights@.len() == c,
                widths@.len() == c,
                forall|k: int| 0 <= k < c ==> (#[trigger] first@[k])@ == title(heads[k]),
                forall|k: int| 0 <= k < c ==> (#[trigger] rights@[k]) == (verbose && to_the_right(heads[k])),
                forall|k: int|
                    0 <= k < c ==> (#[trigger] widths@[k]) == if verbose {
                        cell_size(title(heads[k]))
                    } else {
                        0
                    },
            decreases ncols - c,
        {
            let (right, text) = Self::column(headers[c]);
            assert(heads[c as int] == headers@[c as int]@);
            rights.push(verbose && right);
            let size = text.as_str().len();
            assert(size == cell_size(text@));
            widths.push(
                if verbose {
                    size
                } else {
                    0
                },
            );
            first.push(text);
            c = c + 1;
        }
        assert(cells(first@) =~= titles(heads));
        assert(rights@ =~= rights_of(verbose, heads));
        // the widths of the columns
        if verbose {
            let mut r: usize = 0;
            assert(rows[0] == titles(heads));
            assert forall|k: int| 0 <= k < ncols implies (#[trigger] widths@[k]) == column_width(
                rows,
                k,
                1,
            ) by {
                assert(rows[0][k] == title(heads[k]));
                assert(column_width(rows, k, 0) == 0);
            }
            while r < data.len()
                invariant
                    verbose,
                    r <= data@.len(),
                    ncols == headers@.len(),
                    widths@.len() == ncols,
                    body == table(data@),
                    rows == printed_rows(verbose, heads, body),
                    rows.len() == data@.len() + 1,
                    forall|k: int| 0 <= k < data@.len() ==> (#[trigger] data@[k])@.len() == ncols,
                    forall|k: int|
                        0 <= k < ncols ==> (#[trigger] widths@[k]) == column_width(rows, k, r + 1),
                decreases data@.len() - r,
            {
                let row = &data[r];
                assert(rows[r + 1] == cells(row@));
                let mut c: usize = 0;
                while c < ncols
                    invariant
                        c <= ncols,
                        r < data@.len(),
                        widths@.len() == ncols,
                        row@.len() == ncols,
                        rows.len() == data@.len() + 1,
                        rows[r + 1] == cells(row@),
                        forall|k: int|
                            0 <= k < c ==> (#[trigger] widths@[k]) == column_width(rows, k, r + 2),
                        forall|k: int|
                            c <= k < ncols ==> (#[trigger] widths@[k]) == column_width(
                                rows,
                                k,
                                r + 1,
                            ),
                    decreases ncols - c,
                {
                    let size = row[c].as_str().len();
                    assert(cells(row@)[c as int] == row@[c as int]@);
                    assert(size == cell_size(rows[r + 1][c as int]));
                    if size > widths[c] {
                        widths[c] = size;
                    }
                    c = c + 1;
                }
                r = r + 1;
            }
        }
        let ghost sizes = widths@;
        assert(sizes =~= widths_of(verbose, heads, body));
        // the lines
        let mut lines: Vec<String> = Vec::new();
        if verbose {
            lines.push(Self::row(&first, &widths, &rights));
        }
        let ghost offset: int = if verbose {
            1
        } else {
            0
        };
        let mut r: usize = 0;
        while r < data.len()
            invariant
                r <= data@.len(),
                ncols == headers@.len(),
                ncols == heads.len(),
                widths@.len() == ncols,
                rights@.len() == ncols,
                body == table(data@),
                rows == printed_rows(verbose, heads, body),
                offset == if verbose {
                    1int
                } else {
                    0int
                },
                rows.len() == data@.len() + offset,
                sizes == widths@,
                sizes == widths_of(verbose, heads, body),
                rights@ == rights_of(verbose, heads),
                forall|k: int| 0 <= k < data@.len() ==> (#[trigger] data@[k])@.len() == ncols,
                lines@.len() == r + offset,
                forall|k: int|
                    0 <= k < lines@.len() ==> (#[trigger] lines@[k])@ == row_line(
                        rows[k],
                        sizes,
                        rights@,
                        ncols as int,
                    ),
            decreases data@.len() - r,
        {
            let row = &data[r];
            assert(rows[r + offset] == cells(row@));
            lines.push(Self::row(row, &widths, &rights));
            r = r + 1;
        }
        assert(lines@.map_values(|line: String| line@) =~= list_lines(verbose, heads, body));
        lines
    }
}

} // verus!
