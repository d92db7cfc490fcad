//! The decisions of the command line front end: how bare arguments are
//! read (reply, tag search, show, capture), how `sync` and `search`
//! arguments are read, how note ids are parsed, and how notes are shortened
//! for listing.

use vstd::prelude::*;
use vstd::string::*;
use crate::ids::{hex_digit, nibble, uuid_text};
use crate::text::{is_prefix_char, is_valid_ulid_prefix, is_white_space, is_white_space_char, valid_prefix};

verus! {

/// `ws` joined with `sep` between consecutive items.
pub open spec fn join(ws: Seq<Seq<char>>, sep: Seq<char>) -> Seq<char>
    decreases ws.len(),
{
    if ws.len() == 0 {
        Seq::empty()
    } else if ws.len() == 1 {
        ws[0]
    } else {
        join(ws.drop_last(), sep) + sep + ws.last()
    }
}

/// The views of a list of strings.
pub open spec fn views(v: Seq<String>) -> Seq<Seq<char>> {
    v.map_values(|s: String| s@)
}

/// `s` without its leading run of `c`.
pub open spec fn trim_start(s: Seq<char>, c: char) -> Seq<char>
    decreases s.len(),
{
    if s.len() > 0 && s[0] == c {
        trim_start(s.drop_first(), c)
    } else {
        s
    }
}

/// Trim law: `trim_start(s, c)` is what follows the leading run of `c` in
/// `s`: a suffix of `s`, preceded only by copies of `c`, and not itself
/// starting with `c`.
pub proof fn lemma_trim_start(s: Seq<char>, c: char)
    ensures
        trim_start(s, c).len() <= s.len(),
        trim_start(s, c) == s.skip(s.len() - trim_start(s, c).len()),
        forall|i: int| 0 <= i < s.len() - trim_start(s, c).len() ==> #[trigger] s[i] == c,
        trim_start(s, c).len() == 0 || trim_start(s, c)[0] != c,
    decreases s.len(),
{
    if s.len() > 0 && s[0] == c {
        lemma_trim_start(s.drop_first(), c);
        let t = trim_start(s, c);
        assert(t == trim_start(s.drop_first(), c));
        assert(s.drop_first().skip(s.drop_first().len() - t.len()) =~= s.skip(s.len() - t.len()));
        assert forall|i: int| 0 <= i < s.len() - t.len() implies #[trigger] s[i] == c by {
            if i > 0 {
                assert(s[i] == s.drop_first()[i - 1]);
            }
        }
    } else {
        assert(s.skip(0) =~= s);
    }
}

/// Whether `s` starts with `c`.
pub open spec fn starts_with(s: Seq<char>, c: char) -> bool {
    s.len() > 0 && s[0] == c
}

/// Joins `items` with `sep`.
pub fn join_strings(items: &[String], sep: &str) -> (s: String)
    ensures
        s@ == join(views(items@), sep@),
{
    let mut s = String::new();
    let mut i: usize = 0;
    while i < items.len()
        invariant
            i <= items@.len(),
            s@ == join(views(items@.take(i as int)), sep@),
        decreases items@.len() - i,
    {
        proof {
            assert(views(items@.take(i + 1)).drop_last() =~= views(items@.take(i as int)));
            assert(views(items@.take(i + 1)).last() == items@[i as int]@);
        }
        if i > 0 {
            s.append(sep);
        } else {
            assert(views(items@.take(1)) =~= seq![items@[0]@]);
        }
        s.append(items[i].as_str());
        i = i + 1;
    }
    proof {
        assert(items@.take(items@.len() as int) =~= items@);
    }
    s
}

/// Whether `s` starts with `c`.
pub fn str_starts_with(s: &str, c: char) -> (b: bool)
    ensures
        b == starts_with(s@, c),
{
    s.unicode_len() > 0 && s.get_char(0) == c
}

/// `s` without its leading run of `c`.
pub fn trim_start_char(s: &str, c: char) -> (t: String)
    ensures
        t@ == trim_start(s@, c),
{
    let n = s.unicode_len();
    let mut k: usize = 0;
    assert(s@.skip(0) =~= s@);
    while k < n && s.get_char(k) == c
        invariant
            n == s@.len(),
            k <= n,
            trim_start(s@, c) == trim_start(s@.skip(k as int), c),
        decreases n - k,
    {
        proof {
            assert(s@.skip(k as int).drop_first() =~= s@.skip(k + 1));
        }
        k = k + 1;
    }
    proof {
        assert(s@.subrange(k as int, n as int) =~= s@.skip(k as int));
    }
    String::from_str(s.substring_char(k, n))
}

/// What a command line without a subcommand asks for.
#[derive(Debug, Clone)]
pub enum CaptureMode {
    /// `@ID content…`: reply to the note with that id prefix.
    Reply { id: String, content: String },
    /// `#tag`: list the notes with that tag.
    TagSearch { tag: String },
    /// An id prefix: show that note.
    Show { prefix: String },
    /// Anything else: record the words as a new note.
    Capture { content: String },
    /// No words: show the recent notes.
    Recent,
}

/// How bare command line words are read.
pub open spec fn spec_capture_mode(args: Seq<Seq<char>>) -> CaptureModeSpec {
    if args.len() == 0 {
        CaptureModeSpec::Recent
    } else if starts_with(args[0], '@') && args.len() >= 2 {
        CaptureModeSpec::Reply { id: trim_start(args[0], '@'), content: join(args.skip(1), " "@) }
    } else if starts_with(args[0], '#') {
        CaptureModeSpec::TagSearch { tag: trim_start(args[0], '#') }
    } else if valid_prefix(args[0]) {
        CaptureModeSpec::Show { prefix: args[0] }
    } else {
        CaptureModeSpec::Capture { content: join(args, " "@) }
    }
}

/// Mode law: with no words, the recent notes are listed; `@ID` followed by
/// at least one more word replies to `ID` (leading `@`s removed) with the
/// remaining words joined by spaces; a first word starting with `#`
/// searches that tag; a first word of 3 to 26 id-prefix characters shows
/// that note; a lone `@ID`, and anything else, is captured as a new note.
pub proof fn lemma_capture_modes(args: Seq<Seq<char>>)
    ensures
        args.len() == 0 ==> spec_capture_mode(args) == CaptureModeSpec::Recent,
        args.len() >= 2 && args[0].len() > 0 && args[0][0] == '@' ==> spec_capture_mode(args) == (CaptureModeSpec::Reply {
            id: trim_start(args[0], '@'),
            content: join(args.skip(1), " "@),
        }),
        args.len() == 2 && args[0].len() > 0 && args[0][0] == '@' ==> spec_capture_mode(args) == (CaptureModeSpec::Reply {
            id: trim_start(args[0], '@'),
            content: args[1],
        }),
        args.len() >= 1 && args[0].len() > 0 && args[0][0] == '#' ==> spec_capture_mode(args) == (CaptureModeSpec::TagSearch {
            tag: trim_start(args[0], '#'),
        }),
        args.len() >= 1 && 3 <= args[0].len() <= 26 && (forall|k: int| 0 <= k < args[0].len() ==> is_prefix_char(
            #[trigger] args[0][k],
        )) ==> spec_capture_mode(args) == (CaptureModeSpec::Show { prefix: args[0] }),
        args.len() == 1 && args[0].len() > 0 && args[0][0] == '@' ==> spec_capture_mode(args) == (CaptureModeSpec::Capture {
            content: args[0],
        }),
        args.len() >= 1 && !(args[0].len() > 0 && (args[0][0] == '@' || args[0][0] == '#')) && !valid_prefix(args[0])
            ==> spec_capture_mode(args) == (CaptureModeSpec::Capture { content: join(args, " "@) }),
{
    if args.len() == 2 {
        assert(args.skip(1) =~= seq![args[1]]);
    }
    if args.len() >= 1 && args[0].len() > 0 {
        if valid_prefix(args[0]) {
            assert(is_prefix_char(args[0][0]));
        }
    }
    if args.len() == 1 && args[0].len() > 0 && args[0][0] == '@' {
        assert(!is_prefix_char(args[0][0]));
        assert(!valid_prefix(args[0]));
    }
}

/// The value of a capture mode.
pub enum CaptureModeSpec {
    Reply { id: Seq<char>, content: Seq<char> },
    TagSearch { tag: Seq<char> },
    Show { prefix: Seq<char> },
    Capture { content: Seq<char> },
    Recent,
}

impl CaptureMode {
    /// The value of this mode.
    pub open spec fn model(&self) -> CaptureModeSpec {
        match self {
            CaptureMode::Reply { id, content } => CaptureModeSpec::Reply { id: id@, content: content@ },
            CaptureMode::TagSearch { tag } => CaptureModeSpec::TagSearch { tag: tag@ },
            CaptureMode::Show { prefix } => CaptureModeSpec::Show { prefix: prefix@ },
            CaptureMode::Capture { content } => CaptureModeSpec::Capture { content: content@ },
            CaptureMode::Recent => CaptureModeSpec::Recent,
        }
    }
}

/// Reads the words given without a subcommand: `@ID content…` replies,
/// `#tag` searches a tag, an id prefix shows a note, anything else is
/// captured as a new note, and no words at all lists the recent notes.
pub fn capture_mode(args: &Vec<String>) -> (m: CaptureMode)
    ensures
        m.model() == spec_capture_mode(views(args@)),
{
    if args.len() == 0 {
        return CaptureMode::Recent;
    }
    let first = args[0].as_str();
    proof {
        assert(views(args@)[0] == first@);
    }
    if str_starts_with(first, '@') && args.len() >= 2 {
        let id = trim_start_char(first, '@');
        let rest = args.as_slice().split_at(1).1;
        proof {
            assert(views(rest@) =~= views(args@).skip(1));
        }
        let content = join_strings(rest, " ");
        CaptureMode::Reply { id, content }
    } else if str_starts_with(first, '#') {
        CaptureMode::TagSearch { tag: trim_start_char(first, '#') }
    } else if is_valid_ulid_prefix(first) {
        CaptureMode::Show { prefix: String::from_str(first) }
    } else {
        CaptureMode::Capture { content: join_strings(args.as_slice(), " ") }
    }
}

/// A `sync` subcommand.
#[derive(Debug, Clone)]
pub enum SyncCommand {
    /// Connect to the peer at `addr` and sync as initiator.
    Init { addr: String },
    /// Wait for peers and sync as responder.
    Respond,
}

/// Why `sync` arguments were refused.
#[derive(Debug, Clone, Copy, PartialEq, Eq, Structural)]
pub enum SyncArgsError {
    /// `sync init` without an address.
    MissingAddress,
    /// A subcommand other than `init` and `respond` (or none).
    UnknownSubcommand,
}

/// The message the command line prints for a `sync` argument error.
pub open spec fn sync_args_message(e: SyncArgsError) -> Seq<char> {
    match e {
        SyncArgsError::MissingAddress => "sync init 需要指定地址"@,
        SyncArgsError::UnknownSubcommand => "未知的 sync 子命令"@,
    }
}

impl SyncArgsError {
    /// The message the command line prints for this error.
    pub fn message(&self) -> (s: &'static str)
        ensures
            s@ == sync_args_message(*self),
    {
        match self {
            SyncArgsError::MissingAddress => "sync init 需要指定地址",
            SyncArgsError::UnknownSubcommand => "未知的 sync 子命令",
        }
    }
}

/// Reads `sync` arguments (`args[0]` is `sync` itself): `init ADDR` or
/// `respond`.
pub fn parse_sync_args(args: &Vec<String>) -> (r: Result<SyncCommand, SyncArgsError>)
    ensures
        args@.len() >= 2 && args@[1]@ == "init"@ ==> match r {
            Ok(SyncCommand::Init { addr }) => args@.len() >= 3 && addr@ == args@[2]@,
            Err(e) => args@.len() < 3 && e == SyncArgsError::MissingAddress,
            _ => false,
        },
        args@.len() >= 2 && args@[1]@ == "respond"@ ==> r matches Ok(SyncCommand::Respond),
        (args@.len() < 2 || (args@[1]@ != "init"@ && args@[1]@ != "respond"@)) ==> r == Err::<SyncCommand, SyncArgsError>(
            SyncArgsError::UnknownSubcommand,
        ),
{
    if args.len() < 2 {
        return Err(SyncArgsError::UnknownSubcommand);
    }
    proof {
        reveal_strlit("init");
        assert("init"@ =~= seq!['i', 'n', 'i', 't']);
        reveal_strlit("respond");
        assert("respond"@ =~= seq!['r', 'e', 's', 'p', 'o', 'n', 'd']);
    }
    let init = String::from_str("init");
    let respond = String::from_str("respond");
    if args[1] == init {
        if args.len() < 3 {
            Err(SyncArgsError::MissingAddress)
        } else {
            Ok(SyncCommand::Init { addr: args[2].clone() })
        }
    } else if args[1] == respond {
        Ok(SyncCommand::Respond)
    } else {
        Err(SyncArgsError::UnknownSubcommand)
    }
}

/// What a `search` query asks for.
#[derive(Debug, Clone)]
pub enum SearchQuery {
    /// `#tag`: the notes with that tag.
    Tag(String),
    /// Anything else: notes whose content matches.
    Content(String),
}

/// Reads a `search` query: `None` for an empty query (refused), a tag
/// search when it starts with `#` (that one `#` removed), else a content
/// search.
pub fn parse_search_query(query: &str) -> (q: Option<SearchQuery>)
    ensures
        query@.len() == 0 <==> q is None,
        q matches Some(SearchQuery::Tag(t)) ==> starts_with(query@, '#') && t@ == query@.drop_first(),
        q matches Some(SearchQuery::Content(c)) ==> !starts_with(query@, '#') && c@ == query@,
        query@.len() > 0 ==> (starts_with(query@, '#') <==> q matches Some(SearchQuery::Tag(_))),
{
    let n = query.unicode_len();
    if n == 0 {
        None
    } else if query.get_char(0) == '#' {
        Some(SearchQuery::Tag(String::from_str(query.substring_char(1, n))))
    } else {
        Some(SearchQuery::Content(String::from_str(query)))
    }
}

/// `content` shortened for a listing: when it is longer than `max_bytes`
/// bytes, its first `keep` characters followed by `...`; else unchanged.
pub open spec fn preview(content: &str, max_bytes: nat, keep: nat) -> Seq<char> {
    if content.len() > max_bytes {
        content@.take(if keep <= content@.len() { keep as int } else { content@.len() as int }) + "..."@
    } else {
        content@
    }
}

/// Shortens `content` for a listing (see `preview`).
pub fn content_preview(content: &str, max_bytes: usize, keep: usize) -> (s: String)
    ensures
        s@ == preview(content, max_bytes as nat, keep as nat),
{
    if content.len() > max_bytes {
        let n = content.unicode_len();
        let k = if keep <= n { keep } else { n };
        let mut s = String::from_str(content.substring_char(0, k));
        s.append("...");
        proof {
            assert(content@.subrange(0, k as int) =~= content@.take(k as int));
        }
        s
    } else {
        String::from_str(content)
    }
}

/// The tags of a note as one line: each prefixed with `#`, separated by spaces.
pub open spec fn hashtag_line(tags: Seq<Seq<char>>) -> Seq<char> {
    join(tags.map_values(|t: Seq<char>| "#"@ + t), " "@)
}

/// Formats tags as `#a #b #c`.
pub fn format_hashtags(tags: &Vec<String>) -> (s: String)
    ensures
        s@ == hashtag_line(views(tags@)),
{
    let mut marked: Vec<String> = Vec::new();
    let mut i: usize = 0;
    while i < tags.len()
        invariant
            i <= tags@.len(),
            views(marked@) == views(tags@.take(i as int)).map_values(|t: Seq<char>| "#"@ + t),
        decreases tags@.len() - i,
    {
        let mut m = String::from_str("#");
        m.append(tags[i].as_str());
        let ghost before = marked@;
        marked.push(m);
        proof {
            assert(views(marked@) =~= views(before).push(m@));
            assert(views(tags@.take(i + 1)) =~= views(tags@.take(i as int)).push(tags@[i as int]@));
            assert(views(tags@.take(i + 1)).map_values(|t: Seq<char>| "#"@ + t) =~= views(tags@.take(i as int)).map_values(
                |t: Seq<char>| "#"@ + t,
            ).push("#"@ + tags@[i as int]@));
        }
        i = i + 1;
    }
    proof {
        assert(tags@.take(tags@.len() as int) =~= tags@);
    }
    join_strings(marked.as_slice(), " ")
}

/// The value of a hexadecimal digit (either case).
pub open spec fn hex_digit_value(c: char) -> Option<int> {
    let n = c as u32;
    if 0x30 <= n <= 0x39 {
        Some(n - 0x30)
    } else if 0x61 <= n <= 0x66 {
        Some(n - 0x61 + 10)
    } else if 0x41 <= n <= 0x46 {
        Some(n - 0x41 + 10)
    } else {
        None
    }
}

/// The number that the hexadecimal digits `s` write, most significant
/// first; `None` when a character is not a hexadecimal digit.
pub open spec fn hex_number(s: Seq<char>) -> Option<int>
    decreases s.len(),
{
    if s.len() == 0 {
        Some(0)
    } else {
        match (hex_number(s.drop_last()), hex_digit_value(s.last())) {
            (Some(v), Some(d)) => Some(v * 16 + d),
            _ => None,
        }
    }
}

/// The 32 digits of a hyphenated UUID text (groups of 8-4-4-4-12 with `-`
/// between them), or `None` when `s` is not of that shape.
pub open spec fn hyphenated_digits(s: Seq<char>) -> Option<Seq<char>> {
    if s.len() == 36 && s[8] == '-' && s[13] == '-' && s[18] == '-' && s[23] == '-' {
        Some(s.subrange(0, 8) + s.subrange(9, 13) + s.subrange(14, 18) + s.subrange(19, 23) + s.subrange(24, 36))
    } else {
        None
    }
}

/// `c` with an ASCII capital letter made small.
pub open spec fn ascii_lower(c: char) -> char {
    if 0x41 <= (c as u32) <= 0x5A {
        ((c as u32) + 32) as char
    } else {
        c
    }
}

/// The id that `uuid::Uuid::parse_str` reads from a text: 32 hexadecimal
/// digits; or the hyphenated form, bare, in braces, or after `urn:uuid:`
/// (in any case); the digits in either case. `None` for any other text.
pub open spec fn uuid_from_text(s: Seq<char>) -> Option<u128> {
    let digits = if s.len() == 32 {
        Some(s)
    } else if s.len() == 36 {
        hyphenated_digits(s)
    } else if s.len() == 38 && s[0] == '{' && s[37] == '}' {
        hyphenated_digits(s.subrange(1, 37))
    } else if s.len() == 45 && s.take(9).map_values(|c: char| ascii_lower(c)) == seq!['u', 'r', 'n', ':', 'u', 'u', 'i', 'd', ':'] {
        hyphenated_digits(s.skip(9))
    } else {
        None
    };
    match digits {
        Some(d) => match hex_number(d) {
            Some(v) => Some(v as u128),
            None => None,
        },
        None => None,
    }
}

/// A hexadecimal digit reads back as the value it was written for.
proof fn lemma_hex_digit_value(n: u128)
    requires
        n < 16,
    ensures
        hex_digit_value(hex_digit(n)) == Some(n as int),
{
}

/// The first `j` digits of the text of `v` read as the top `4 * j` bits.
proof fn lemma_hex_prefix(v: u128, j: int)
    requires
        1 <= j <= 32,
    ensures
        hex_number(Seq::new(32, |k: int| hex_digit(nibble(v, k))).take(j)) == Some((v >> ((128 - 4 * j) as u128)) as int),
    decreases j,
{
    let d = Seq::new(32, |k: int| hex_digit(nibble(v, k)));
    let t = d.take(j);
    assert(t.drop_last() =~= d.take(j - 1));
    assert(t.last() == hex_digit(nibble(v, j - 1)));
    let s = (128 - 4 * j) as u128;
    assert(nibble(v, j - 1) == (v >> s) & 15);
    assert((v >> s) & 15 < 16) by (bit_vector);
    lemma_hex_digit_value(nibble(v, j - 1));
    if j == 1 {
        assert(d.take(0) =~= Seq::<char>::empty());
        assert((v >> 124u128) & 15 == v >> 124u128) by (bit_vector);
    } else {
        lemma_hex_prefix(v, j - 1);
        assert(((128 - 4 * (j - 1)) as u128) == s + 4);
        assert((v >> (s + 4)) * 16 + ((v >> s) & 15) == v >> s) by (bit_vector)
            requires
                s <= 120,
        ;
    }
}

/// The hyphenated text of an id reads back as that id.
pub proof fn lemma_uuid_text_reads_back(v: u128)
    ensures
        uuid_from_text(uuid_text(v)) == Some(v),
{
    let t = uuid_text(v);
    let d = Seq::new(32, |k: int| hex_digit(nibble(v, k)));
    assert(hyphenated_digits(t) == Some(d)) by {
        assert(t.subrange(0, 8) + t.subrange(9, 13) + t.subrange(14, 18) + t.subrange(19, 23) + t.subrange(24, 36) =~= d);
    }
    lemma_hex_prefix(v, 32);
    assert(d.take(32) =~= d);
    assert(v >> 0u128 == v) by (bit_vector);
}

/// Parses a note id with `uuid::Uuid::parse_str`, returning the crate's
/// error message on failure.
///
/// The contract states what the crate's parser shows: the id it reads is
/// `uuid_from_text` of the text (the simple, hyphenated, braced and URN
/// forms, in any case).
#[verifier::external_body]
fn parse_uuid(s: &str) -> (r: Result<u128, String>)
    ensures
        r is Ok ==> uuid_from_text(s@) == Some(r->Ok_0),
        r is Err ==> uuid_from_text(s@) is None,
{
    match uuid::Uuid::parse_str(s) {
        Ok(u) => Ok(u.as_u128()),
        Err(e) => Err(e.to_string()),
    }
}

/// Parses a full note id, or gives the message `无效的 ULID: <reason>`.
pub fn parse_ulid(s: &str) -> (r: Result<u128, String>)
    ensures
        match r {
            Ok(v) => uuid_from_text(s@) == Some(v),
            Err(msg) => uuid_from_text(s@) is None && msg@.take("无效的 ULID: "@.len() as int) == "无效的 ULID: "@,
        },
        forall|v: u128| s@ == uuid_text(v) ==> r == Ok::<u128, String>(v),
        (s@.len() != 32 && s@.len() != 36 && s@.len() != 38 && s@.len() != 45) ==> r is Err,
{
    proof {
        assert forall|v: u128| s@ == uuid_text(v) implies uuid_from_text(s@) == Some(v) by {
            lemma_uuid_text_reads_back(v);
        }
    }
    match parse_uuid(s) {
        Ok(v) => Ok(v),
        Err(reason) => {
            let mut msg = String::from_str("无效的 ULID: ");
            msg.append(reason.as_str());
            proof {
                assert(msg@.take("无效的 ULID: "@.len() as int) =~= "无效的 ULID: "@);
            }
            Err(msg)
        },
    }
}

/// The shells for which completion scripts can be generated.
#[derive(Debug, Clone, Copy, PartialEq, Eq, Structural)]
pub enum ShellKind {
    Bash,
    Elvish,
    Fish,
    PowerShell,
    Zsh,
}

/// The shell that a `completions` argument names, if it is supported.
pub fn shell_from_name(name: &str) -> (k: Option<ShellKind>)
    ensures
        name@ == "bash"@ ==> k == Some(ShellKind::Bash),
        name@ == "elvish"@ ==> k == Some(ShellKind::Elvish),
        name@ == "fish"@ ==> k == Some(ShellKind::Fish),
        (name@ == "powershell"@ || name@ == "pwsh"@) ==> k == Some(ShellKind::PowerShell),
        name@ == "zsh"@ ==> k == Some(ShellKind::Zsh),
        (name@ != "bash"@ && name@ != "elvish"@ && name@ != "fish"@ && name@ != "powershell"@
            && name@ != "pwsh"@ && name@ != "zsh"@) ==> k is None,
{
    proof {
        reveal_strlit("bash");
        assert("bash"@ =~= seq!['b', 'a', 's', 'h']);
        reveal_strlit("elvish");
        assert("elvish"@ =~= seq!['e', 'l', 'v', 'i', 's', 'h']);
        reveal_strlit("fish");
        assert("fish"@ =~= seq!['f', 'i', 's', 'h']);
        reveal_strlit("powershell");
        assert("powershell"@ =~= seq!['p', 'o', 'w', 'e', 'r', 's', 'h', 'e', 'l', 'l']);
        reveal_strlit("pwsh");
        assert("pwsh"@ =~= seq!['p', 'w', 's', 'h']);
        reveal_strlit("zsh");
        assert("zsh"@ =~= seq!['z', 's', 'h']);
    }
    let s = String::from_str(name);
    if s == String::from_str("bash") {
        Some(ShellKind::Bash)
    } else if s == String::from_str("elvish") {
        Some(ShellKind::Elvish)
    } else if s == String::from_str("fish") {
        Some(ShellKind::Fish)
    } else if s == String::from_str("powershell") || s == String::from_str("pwsh") {
        Some(ShellKind::PowerShell)
    } else if s == String::from_str("zsh") {
        Some(ShellKind::Zsh)
    } else {
        None
    }
}

/// `pat` occurs in `s`.
pub open spec fn contains_text(s: Seq<char>, pat: Seq<char>) -> bool {
    exists|i: int| 0 <= i && i + pat.len() <= s.len() && #[trigger] s.subrange(i, i + pat.len()) == pat
}

/// Whether `pat` occurs in `s`.
pub fn str_contains(s: &str, pat: &str) -> (b: bool)
    ensures
        b == contains_text(s@, pat@),
{
    let n = s.unicode_len();
    let m = pat.unicode_len();
    if m > n {
        proof {
            assert forall|i: int| 0 <= i && i + pat@.len() <= s@.len() implies #[trigger] s@.subrange(i, i + pat@.len()) != pat@ by {}
        }
        return false;
    }
    let mut i: usize = 0;
    while i <= n - m
        invariant
            n == s@.len(),
            m == pat@.len(),
            m <= n,
            i <= n - m + 1,
            forall|j: int| 0 <= j < i ==> #[trigger] s@.subrange(j, j + m) != pat@,
        decreases n - m + 1 - i,
    {
        let mut k: usize = 0;
        while k < m && s.get_char(i + k) == pat.get_char(k)
            invariant
                n == s@.len(),
                m == pat@.len(),
                i + m <= n,
                k <= m,
                forall|q: int| 0 <= q < k ==> s@[i + q] == pat@[q],
            decreases m - k,
        {
            k = k + 1;
        }
        if k == m {
            proof {
                assert(s@.subrange(i as int, i + m) =~= pat@);
            }
            return true;
        }
        proof {
            assert(s@.subrange(i as int, i + m)[k as int] != pat@[k as int]);
        }
        i = i + 1;
    }
    proof {
        assert forall|j: int| 0 <= j && j + pat@.len() <= s@.len() implies #[trigger] s@.subrange(j, j + pat@.len()) != pat@ by {
            assert(j < i);
        }
    }
    false
}

/// The shell that a `$SHELL` value or a program name points to: the first
/// of `zsh`, `fish`, `bash` that occurs in it.
pub open spec fn shell_hint(hint: Seq<char>) -> Option<ShellKind> {
    if contains_text(hint, "zsh"@) {
        Some(ShellKind::Zsh)
    } else if contains_text(hint, "fish"@) {
        Some(ShellKind::Fish)
    } else if contains_text(hint, "bash"@) {
        Some(ShellKind::Bash)
    } else {
        None
    }
}

/// Reads the shell that a `$SHELL` value or a program name points to (see
/// `shell_hint`).
pub fn shell_from_hint(hint: &str) -> (k: Option<ShellKind>)
    ensures
        k == shell_hint(hint@),
{
    if str_contains(hint, "zsh") {
        Some(ShellKind::Zsh)
    } else if str_contains(hint, "fish") {
        Some(ShellKind::Fish)
    } else if str_contains(hint, "bash") {
        Some(ShellKind::Bash)
    } else {
        None
    }
}

/// ANSI escape that turns text green.
pub open spec fn green_start() -> Seq<char> {
    seq!['\u{1b}', '[', '3', '2', 'm']
}

/// ANSI escape that resets text attributes.
pub open spec fn style_reset() -> Seq<char> {
    seq!['\u{1b}', '[', '0', 'm']
}

/// `s` with the green escape put back after every reset escape it holds
/// (scanning from the left, as `str::match_indices` finds them), so that
/// text after an inner reset stays green.
pub open spec fn reapply_green(s: Seq<char>) -> Seq<char>
    decreases s.len(),
{
    if s.len() == 0 {
        s
    } else if s.len() >= 4 && s.take(4) == style_reset() {
        style_reset() + green_start() + reapply_green(s.skip(4))
    } else {
        seq![s[0]] + reapply_green(s.drop_first())
    }
}

/// What painting `s` green may give: `s` itself when colours are off, or
/// `s` with its inner resets followed by the green escape, wrapped in the
/// green and reset escapes.
pub open spec fn painted_green(s: Seq<char>, p: Seq<char>) -> bool {
    p == s || p == green_start() + reapply_green(s) + style_reset()
}

/// Paints `s` green for a terminal.
///
/// Calls `colored::Colorize::green` and renders the result with
/// `to_string`. Whether colours are used depends on the environment
/// (`NO_COLOR`, `CLICOLOR`, whether output is a terminal), so the contract
/// allows both outcomes that the crate's `Display` implementation writes.
#[verifier::external_body]
fn paint_green(s: &str) -> (p: String)
    ensures
        painted_green(s@, p@),
{
    colored::Colorize::green(s).to_string()
}

/// Formats tags for display: each painted green, separated by `, `.
pub fn format_tags(tags: &[String]) -> (s: String)
    ensures
        tags@.len() == 0 ==> s@.len() == 0,
        exists|ps: Seq<Seq<char>>| {
            &&& ps.len() == tags@.len()
            &&& forall|i: int| 0 <= i < ps.len() ==> painted_green(tags@[i]@, #[trigger] ps[i])
            &&& s@ == join(ps, ", "@)
        },
{
    if tags.len() == 0 {
        let s = String::new();
        assert(s@ == join(Seq::<Seq<char>>::empty(), ", "@));
        return s;
    }
    let mut painted: Vec<String> = Vec::new();
    let mut i: usize = 0;
    while i < tags.len()
        invariant
            i <= tags@.len(),
            painted@.len() == i,
            forall|j: int| 0 <= j < i ==> painted_green(tags@[j]@, #[trigger] painted@[j]@),
        decreases tags@.len() - i,
    {
        let p = paint_green(tags[i].as_str());
        painted.push(p);
        i = i + 1;
    }
    let s = join_strings(painted.as_slice(), ", ");
    assert(views(painted@).len() == tags@.len());
    assert(forall|j: int| 0 <= j < views(painted@).len() ==> painted_green(tags@[j]@, #[trigger] views(painted@)[j]));
    s
}

/// `s` repeated `n` times.
pub open spec fn repeat(s: Seq<char>, n: nat) -> Seq<char>
    decreases n,
{
    if n == 0 {
        Seq::empty()
    } else {
        repeat(s, (n - 1) as nat) + s
    }
}

/// Appends `count` copies of `unit` to `s`.
fn push_repeated(s: &mut String, unit: &str, count: usize)
    ensures
        final(s)@ == old(s)@ + repeat(unit@, count as nat),
{
    let mut i: usize = 0;
    while i < count
        invariant
            i <= count,
            s@ == old(s)@ + repeat(unit@, i as nat),
        decreases count - i,
    {
        s.append(unit);
        i = i + 1;
        proof {
            assert(old(s)@ + repeat(unit@, (i - 1) as nat) + unit@ =~= old(s)@ + repeat(unit@, i as nat));
        }
    }
}

/// The spaces that pad `s` to `width` characters (none when it is as wide
/// already).
pub fn padding_to(s: &str, width: usize) -> (p: String)
    ensures
        p@ == if s@.len() < width {
            repeat(" "@, (width - s@.len()) as nat)
        } else {
            Seq::<char>::empty()
        },
{
    let n = s.unicode_len();
    let mut p = String::new();
    if n < width {
        push_repeated(&mut p, " ", width - n);
        assert(p@ =~= repeat(" "@, (width - n) as nat));
    } else {
        assert(p@ =~= Seq::<char>::empty());
    }
    p
}

/// Every character of `s` is white space, so `s` trims to nothing.
pub open spec fn blank(s: Seq<char>) -> bool {
    forall|i: int| 0 <= i < s.len() ==> is_white_space(#[trigger] s[i])
}

/// What an edit of a note produced.
#[derive(Debug, Clone, Copy, PartialEq, Eq, Structural)]
pub enum AmendCheck {
    /// Nothing but white space: refused.
    Blank,
    /// The same content: nothing to record.
    Unchanged,
    /// New content: recorded as a new version.
    Changed,
}

/// Judges edited content against the content it replaces: blank content is
/// refused, unchanged content is skipped, anything else is a new version.
pub fn amend_check(old_content: &str, new_content: &str) -> (c: AmendCheck)
    ensures
        c == if blank(new_content@) {
            AmendCheck::Blank
        } else if new_content@ == old_content@ {
            AmendCheck::Unchanged
        } else {
            AmendCheck::Changed
        },
{
    let n = new_content.unicode_len();
    let mut i: usize = 0;
    while i < n
        invariant
            n == new_content@.len(),
            i <= n,
            forall|j: int| 0 <= j < i ==> is_white_space(#[trigger] new_content@[j]),
        decreases n - i,
    {
        if !is_white_space_char(new_content.get_char(i)) {
            return if String::from_str(new_content) == String::from_str(old_content) {
                AmendCheck::Unchanged
            } else {
                AmendCheck::Changed
            };
        }
        i = i + 1;
    }
    AmendCheck::Blank
}

/// The editors tried, in this order, when `$EDITOR` is not set.
pub open spec fn editor_candidates() -> Seq<Seq<char>> {
    seq!["nvim"@, "vim"@, "vi"@, "nano"@, "emacs"@]
}

/// Editor `i` of `editor_candidates`.
pub fn editor_candidate(i: usize) -> (e: &'static str)
    requires
        i < 5,
    ensures
        e@ == editor_candidates()[i as int],
{
    match i {
        0 => "nvim",
        1 => "vim",
        2 => "vi",
        3 => "nano",
        _ => "emacs",
    }
}

/// The editor to open: `$EDITOR` when set; else the first candidate that
/// answered (`available[i]` tells whether candidate `i` did; candidates past
/// the end of `available` were not tried); else `vi`.
pub fn choose_editor(env_editor: Option<String>, available: &Vec<bool>) -> (e: String)
    requires
        available@.len() <= 5,
    ensures
        env_editor matches Some(v) ==> e@ == v@,
        env_editor is None ==> forall|i: int| 0 <= i < available@.len() && available@[i] && (forall|j: int|
            0 <= j < i ==> !available@[j]) ==> e@ == editor_candidates()[i],
        env_editor is None && (forall|i: int| 0 <= i < available@.len() ==> !available@[i]) ==> e@ == "vi"@,
{
    match env_editor {
        Some(v) => v,
        None => {
            let mut i: usize = 0;
            while i < available.len()
                invariant
                    env_editor is None,
                    available@.len() <= 5,
                    i <= available@.len(),
                    forall|j: int| 0 <= j < i ==> !available@[j],
                decreases available@.len() - i,
            {
                if available[i] {
                    return String::from_str(editor_candidate(i));
                }
                i = i + 1;
            }
            String::from_str("vi")
        },
    }
}

/// Entry `a` of a graph listing comes before entry `b`: by depth, then by
/// position (the order of a stable sort by depth).
pub open spec fn entry_before(entries: Seq<(u128, usize)>, a: int, b: int) -> bool {
    entries[a].1 < entries[b].1 || (entries[a].1 == entries[b].1 && a < b)
}

/// The order in which a graph listing prints its entries: every position
/// once, by depth, entries of equal depth in their listed order.
pub open spec fn listing_order(entries: Seq<(u128, usize)>, order: Seq<usize>) -> bool {
    &&& order.len() == entries.len()
    &&& forall|k: int| 0 <= k < order.len() ==> #[trigger] order[k] < entries.len()
    &&& forall|k: int, m: int| 0 <= k < m < order.len() ==> entry_before(entries, #[trigger] order[k] as int, #[trigger] order[m] as int)
}

/// The first line of the printed order that shows the same note at the same
/// depth as entry `e`.
pub open spec fn first_line_of(entries: Seq<(u128, usize)>, order: Seq<usize>, e: int) -> int {
    choose|p: int| 0 <= p < order.len() && entries[order[p] as int] == entries[e]
        && forall|q: int| 0 <= q < p ==> entries[#[trigger] order[q] as int] != entries[e]
}

/// The tree prefix printed before a graph entry of depth `d`: nothing at
/// the root, else two spaces per level above the parent and a branch mark
/// (`└─ ` for the last entry of its depth, `├─ ` otherwise).
pub open spec fn tree_prefix(d: nat, last: bool) -> Seq<char> {
    if d == 0 {
        Seq::empty()
    } else {
        repeat("  "@, (d - 1) as nat) + if last { "└─ "@ } else { "├─ "@ }
    }
}

/// `n` copies of two spaces are `2 * n` spaces.
proof fn lemma_repeat_spaces(n: nat)
    ensures
        repeat("  "@, n) == Seq::new(2 * n, |i: int| ' '),
    decreases n,
{
    reveal_strlit("  ");
    if n > 0 {
        lemma_repeat_spaces((n - 1) as nat);
        assert(repeat("  "@, n) =~= Seq::new(2 * n, |i: int| ' '));
    } else {
        assert(repeat("  "@, n) =~= Seq::new(2 * n, |i: int| ' '));
    }
}

/// Prefix law: the root has no prefix; an entry of depth `d > 0` is
/// indented by `2 * (d - 1)` spaces, one level of two spaces for each level
/// above its parent, then gets `└─ ` or `├─ `; each level deeper adds two
/// characters.
pub proof fn lemma_tree_prefix_shape(d: nat, last: bool)
    ensures
        d == 0 ==> tree_prefix(d, last).len() == 0,
        d > 0 ==> tree_prefix(d, last) == Seq::new((2 * (d - 1)) as nat, |i: int| ' ') + if last {
            seq!['└', '─', ' ']
        } else {
            seq!['├', '─', ' ']
        },
        d > 0 ==> tree_prefix(d, last).len() == 2 * (d - 1) + 3,
        d > 0 ==> tree_prefix(d + 1, last).len() == tree_prefix(d, last).len() + 2,
{
    reveal_strlit("└─ ");
    reveal_strlit("├─ ");
    assert("└─ "@ =~= seq!['└', '─', ' ']);
    assert("├─ "@ =~= seq!['├', '─', ' ']);
    if d > 0 {
        lemma_repeat_spaces((d - 1) as nat);
        lemma_repeat_spaces(d);
    }
}

/// One printed line of a graph listing.
#[derive(Debug, Clone)]
pub struct GraphLine {
    /// Position of the entry in the listing handed in.
    pub entry: usize,
    /// The tree prefix to print before it.
    pub prefix: String,
}

/// The positions of `entries` sorted by depth, stably.
fn depth_order(entries: &Vec<(u128, usize)>) -> (order: Vec<usize>)
    ensures
        listing_order(entries@, order@),
{
    let n = entries.len();
    let mut order: Vec<usize> = Vec::new();
    let mut i: usize = 0;
    while i < n
        invariant
            n == entries@.len(),
            i <= n,
            order@.len() == i,
            forall|k: int| 0 <= k < order@.len() ==> #[trigger] order@[k] < i,
            forall|k: int, m: int| 0 <= k < m < order@.len() ==> entry_before(entries@, #[trigger] order@[k] as int, #[trigger] order@[m] as int),
        decreases n - i,
    {
        let d = entries[i].1;
        let mut pos: usize = order.len();
        while pos > 0 && entries[order[pos - 1]].1 > d
            invariant
                n == entries@.len(),
                i < n,
                pos <= order@.len(),
                forall|k: int| 0 <= k < order@.len() ==> #[trigger] order@[k] < i,
                forall|k: int| pos <= k < order@.len() ==> entries@[#[trigger] order@[k] as int].1 > d,
            decreases pos,
        {
            pos = pos - 1;
        }
        let ghost old_order = order@;
        order.insert(pos, i);
        proof {
            assert forall|k: int, m: int| 0 <= k < m < order@.len() implies entry_before(entries@, #[trigger] order@[k] as int, #[trigger] order@[m] as int) by {
                if m == pos {
                    assert(order@[k] == old_order[k]);
                    if k == pos - 1 {
                        assert(entries@[old_order[k] as int].1 <= d);
                    } else {
                        assert(entry_before(entries@, old_order[k] as int, old_order[pos - 1] as int));
                    }
                } else if k == pos {
                    assert(order@[m] == old_order[m - 1]);
                } else if k < pos && m > pos {
                    assert(order@[m] == old_order[m - 1]);
                } else if k > pos {
                    assert(order@[k] == old_order[k - 1]);
                    assert(order@[m] == old_order[m - 1]);
                }
            }
            assert forall|k: int| 0 <= k < order@.len() implies #[trigger] order@[k] < i + 1 by {
                if k < pos {
                    assert(order@[k] == old_order[k]);
                } else if k > pos {
                    assert(order@[k] == old_order[k - 1]);
                }
            }
        }
        i = i + 1;
    }
    order
}

/// The first line of `order` that shows the entry at line `k`.
fn first_line(entries: &Vec<(u128, usize)>, order: &Vec<usize>, k: usize) -> (p: usize)
    requires
        listing_order(entries@, order@),
        k < order@.len(),
    ensures
        p == first_line_of(entries@, order@, order@[k as int] as int),
        p <= k,
{
    let e = order[k];
    let mut p: usize = 0;
    while entries[order[p]].0 != entries[e].0 || entries[order[p]].1 != entries[e].1
        invariant
            listing_order(entries@, order@),
            k < order@.len(),
            e == order@[k as int],
            p <= k,
            forall|q: int| 0 <= q < p ==> entries@[#[trigger] order@[q] as int] != entries@[e as int],
        decreases k - p,
    {
        assert(p != k);
        p = p + 1;
    }
    proof {
        assert(entries@[order@[p as int] as int] == entries@[e as int]);
        let c = first_line_of(entries@, order@, e as int);
        if c < p {
            assert(entries@[order@[c] as int] != entries@[e as int]);
        } else if c > p {
            assert(entries@[order@[p as int] as int] == entries@[e as int]);
        }
    }
    p
}

/// The prefix for an entry of depth `d`.
fn line_prefix(d: usize, last: bool) -> (prefix: String)
    ensures
        prefix@ == tree_prefix(d as nat, last),
{
    let mut prefix = String::new();
    if d > 0 {
        push_repeated(&mut prefix, "  ", d - 1);
        if last {
            prefix.append("└─ ");
        } else {
            prefix.append("├─ ");
        }
    }
    prefix
}

/// Lays out a knowledge-graph listing of `(note id, depth)` entries: the
/// entries sorted by depth (stably), each with its tree prefix. An entry is
/// marked as the last of its depth when the first line showing its note at
/// its depth is the final line, or is followed by a line of another depth.
pub fn graph_layout(entries: &Vec<(u128, usize)>) -> (lines: Vec<GraphLine>)
    ensures
        listing_order(entries@, lines@.map_values(|l: GraphLine| l.entry)),
        forall|k: int| 0 <= k < lines@.len() ==> {
            let order = lines@.map_values(|l: GraphLine| l.entry);
            let e = #[trigger] lines@[k].entry as int;
            let p = first_line_of(entries@, order, e);
            let last = p == order.len() - 1 || entries@[order[p + 1] as int].1 != entries@[e].1;
            lines@[k].prefix@ == tree_prefix(entries@[e].1 as nat, last)
        },
{
    let n = entries.len();
    let order = depth_order(entries);
    let ghost ord = order@;
    let mut lines: Vec<GraphLine> = Vec::new();
    let mut k: usize = 0;
    while k < n
        invariant
            n == entries@.len(),
            order@ == ord,
            listing_order(entries@, ord),
            k <= n,
            lines@.len() == k,
            forall|j: int| 0 <= j < k ==> #[trigger] lines@[j].entry == ord[j],
            forall|j: int| 0 <= j < k ==> {
                let e = #[trigger] lines@[j].entry as int;
                let p = first_line_of(entries@, ord, e);
                let last = p == ord.len() - 1 || entries@[ord[p + 1] as int].1 != entries@[e].1;
                lines@[j].prefix@ == tree_prefix(entries@[e].1 as nat, last)
            },
        decreases n - k,
    {
        let e = order[k];
        let d = entries[e].1;
        let p = first_line(entries, &order, k);
        let last = p == n - 1 || entries[order[p + 1]].1 != d;
        let prefix = line_prefix(d, last);
        let ghost before = lines@;
        lines.push(GraphLine { entry: e, prefix });
        proof {
            assert forall|j: int| 0 <= j < k + 1 implies #[trigger] lines@[j].entry == ord[j] by {
                if j < k {
                    assert(lines@[j] == before[j]);
                }
            }
            assert forall|j: int| 0 <= j < k + 1 implies {
                let e = #[trigger] lines@[j].entry as int;
                let p = first_line_of(entries@, ord, e);
                let last = p == ord.len() - 1 || entries@[ord[p + 1] as int].1 != entries@[e].1;
                lines@[j].prefix@ == tree_prefix(entries@[e].1 as nat, last)
            } by {
                if j < k {
                    assert(lines@[j] == before[j]);
                }
            }
        }
        k = k + 1;
    }
    proof {
        assert(lines@.map_values(|l: GraphLine| l.entry) =~= ord);
    }
    lines
}

} // verus!
