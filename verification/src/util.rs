//! Places, names and small tables that the rest of the daemon shares.
use vstd::prelude::*;
use vstd::slice::slice_subrange;

use crate::number::{decimal, decimal_denotes, parse_i32, parse_u16, show, signed, unsigned, within};
use crate::text::{
    begins, contains, cut, digits_prefix, find_chars, find_from, from_chars, has, leading_digits,
    lowercase, pieces, pieces_are_parted, same, split, split_once, strip_prefix, to_chars, to_lowercase, trim, trimmed,
    views,
};

verus! {

/// The port that the media server listens on unless another one is set.
pub const DEFAULT_CAST_PORT: u16 = 60020;

/// How long the list of receivers stays fresh, in seconds.
pub const DISCOVER_TTL: u64 = 20;

// ---------------------------------------------------------------------------
// Places

/// What the process finds in its environment.
#[derive(Debug)]
pub struct Environment {
    /// `HOME`.
    pub home: Option<String>,
    /// `XDG_CONFIG_HOME`.
    pub config_home: Option<String>,
    /// `XDG_RUNTIME_DIR`.
    pub runtime_dir: Option<String>,
    /// `OMARCHY_CAST_PORT`.
    pub cast_port: Option<String>,
    /// The number of the user.
    pub uid: u32,
}

/// `rest` below the directory `base`; an absolute `rest` stands for itself.
pub open spec fn below(base: Seq<char>, rest: Seq<char>) -> Seq<char> {
    if rest.len() > 0 && rest[0] == '/' {
        rest
    } else if base.len() == 0 || base.last() == '/' {
        base + rest
    } else {
        base.push('/') + rest
    }
}

/// `rest` below the directory `base`; an absolute `rest` stands for itself.
pub fn join_path(base: &str, rest: &str) -> (r: String)
    ensures
        r@ == below(base@, rest@),
{
    let b = to_chars(base);
    let t = to_chars(rest);
    if t.len() > 0 && t[0] == '/' {
        return rest.to_owned();
    }
    let mut out = base.to_owned();
    if b.len() > 0 && b[b.len() - 1] != '/' {
        out.push('/');
    }
    out.append(rest);
    out
}

impl Environment {
    pub open spec fn home_path(self) -> Seq<char> {
        match self.home {
            Some(path) => path@,
            None => "."@,
        }
    }

    pub open spec fn config_root(self) -> Seq<char> {
        match self.config_home {
            Some(path) => path@,
            None => below(self.home_path(), ".config"@),
        }
    }

    pub open spec fn config_path(self) -> Seq<char> {
        below(below(self.config_root(), "omarchy"@), "cast"@)
    }

    pub open spec fn runtime_path(self) -> Seq<char> {
        match self.runtime_dir {
            Some(path) => path@,
            None => "/run/user/"@ + decimal(self.uid as nat),
        }
    }

    pub open spec fn state_path(self) -> Seq<char> {
        below(self.runtime_path(), "universal-cast"@)
    }

    pub open spec fn units_path(self) -> Seq<char> {
        below(below(self.config_root(), "systemd"@), "user"@)
    }

    pub open spec fn socket(self) -> Seq<char> {
        below(self.state_path(), "castd.sock"@)
    }

    pub open spec fn lock(self) -> Seq<char> {
        below(self.state_path(), "castd.lock"@)
    }

    pub open spec fn subtitles(self, token: Seq<char>) -> Seq<char> {
        below(below(self.state_path(), "subtitles"@), token)
    }

    pub open spec fn settings(self) -> Seq<char> {
        below(self.config_path(), "settings.json"@)
    }

    pub open spec fn draft(self) -> Seq<char> {
        below(self.config_path(), "settings.json.tmp"@)
    }

    pub open spec fn addresses(self) -> Seq<char> {
        below(self.config_path(), "manual-ips"@)
    }

    pub open spec fn ledger(self) -> Seq<char> {
        below(self.config_path(), "firewall-rules"@)
    }
}

/// The user's home directory.
pub fn home(env: &Environment) -> (r: String)
    ensures
        r@ == env.home_path(),
{
    match &env.home {
        Some(path) => path.clone(),
        None => ".".to_owned(),
    }
}

fn config_root(env: &Environment) -> (r: String)
    ensures
        r@ == env.config_root(),
{
    match &env.config_home {
        Some(path) => path.clone(),
        None => join_path(home(env).as_str(), ".config"),
    }
}

/// The directory of the settings.
pub fn config_dir(env: &Environment) -> (r: String)
    ensures
        r@ == env.config_path(),
{
    join_path(join_path(config_root(env).as_str(), "omarchy").as_str(), "cast")
}

/// The directory of the user's systemd units.
pub fn systemd_user_dir(env: &Environment) -> (r: String)
    ensures
        r@ == env.units_path(),
{
    join_path(join_path(config_root(env).as_str(), "systemd").as_str(), "user")
}

/// The directory for what lives as long as the user is logged in.
pub fn runtime_root(env: &Environment) -> (r: String)
    ensures
        r@ == env.runtime_path(),
{
    match &env.runtime_dir {
        Some(path) => path.clone(),
        None => {
            let mut out = "/run/user/".to_owned();
            out.append(show(env.uid as u64).as_str());
            out
        },
    }
}

/// The directory of the daemon's socket, lock and temporary files.
pub fn state_dir(env: &Environment) -> (r: String)
    ensures
        r@ == env.state_path(),
{
    join_path(runtime_root(env).as_str(), "universal-cast")
}

/// The daemon's socket.
pub fn socket_path(env: &Environment) -> (r: String)
    ensures
        r@ == env.socket(),
{
    join_path(state_dir(env).as_str(), "castd.sock")
}

/// The file whose lock the running daemon holds.
pub fn lock_path(env: &Environment) -> (r: String)
    ensures
        r@ == env.lock(),
{
    join_path(state_dir(env).as_str(), "castd.lock")
}

/// The directory for the subtitles of the stream with this token.
pub fn subtitle_dir(env: &Environment, token: &str) -> (r: String)
    ensures
        r@ == env.subtitles(token@),
{
    join_path(join_path(state_dir(env).as_str(), "subtitles").as_str(), token)
}

/// The file of the settings.
pub fn settings_file(env: &Environment) -> (r: String)
    ensures
        r@ == env.settings(),
{
    join_path(config_dir(env).as_str(), "settings.json")
}

/// The file that new settings are written to before they replace the old ones.
pub fn settings_draft(env: &Environment) -> (r: String)
    ensures
        r@ == env.draft(),
{
    join_path(config_dir(env).as_str(), "settings.json.tmp")
}

/// The file of the addresses that the user entered.
pub fn manual_ips_file(env: &Environment) -> (r: String)
    ensures
        r@ == env.addresses(),
{
    join_path(config_dir(env).as_str(), "manual-ips")
}

/// The file of the addresses that the firewall was opened for.
pub fn firewall_ledger(env: &Environment) -> (r: String)
    ensures
        r@ == env.ledger(),
{
    join_path(config_dir(env).as_str(), "firewall-rules")
}

/// The port that the media server listens on.
pub open spec fn port_of(setting: Option<Seq<char>>) -> u16 {
    match setting {
        Some(s) => match unsigned(s) {
            Some(n) => if n <= u16::MAX {
                n as u16
            } else {
                DEFAULT_CAST_PORT
            },
            None => DEFAULT_CAST_PORT,
        },
        None => DEFAULT_CAST_PORT,
    }
}

/// The port that the media server listens on.
pub fn cast_port(env: &Environment) -> (r: u16)
    ensures
        r == port_of(
            match env.cast_port {
                Some(s) => Some(s@),
                None => None,
            },
        ),
{
    match &env.cast_port {
        Some(setting) => match parse_u16(setting.as_str()) {
            Some(port) => port,
            None => DEFAULT_CAST_PORT,
        },
        None => DEFAULT_CAST_PORT,
    }
}

/// `path` with a leading `~/` replaced by the home directory.
pub open spec fn expanded(path: Seq<char>, home: Seq<char>) -> Seq<char> {
    if begins(path, "~/"@) {
        below(home, path.skip(2))
    } else {
        path
    }
}

/// `path` with a leading `~/` replaced by the home directory.
pub fn expand_tilde(path: &str, env: &Environment) -> (r: String)
    ensures
        r@ == expanded(path@, env.home_path()),
{
    proof {
        reveal_strlit("~/");
    }
    match strip_prefix(path, "~/") {
        Some(rest) => join_path(home(env).as_str(), rest.as_str()),
        None => path.to_owned(),
    }
}

// ---------------------------------------------------------------------------
// Names of files

/// The last segment that names something; none after a `..`.
pub open spec fn last_name(segments: Seq<Seq<char>>) -> Option<Seq<char>>
    decreases segments.len(),
{
    if segments.len() == 0 {
        None
    } else if segments.last().len() == 0 || segments.last() == seq!['.'] {
        last_name(segments.drop_last())
    } else if segments.last() == seq!['.', '.'] {
        None
    } else {
        Some(segments.last())
    }
}

/// The name of the file that a path leads to; none where the path ends in
/// `..` or has no segment.
pub open spec fn file_name_of(path: Seq<char>) -> Option<Seq<char>> {
    last_name(pieces(path, '/'))
}

/// Where the extension of a file name begins: after its last dot, unless
/// that is its first character.
pub open spec fn last_dot(name: Seq<char>) -> Option<int>
    decreases name.len(),
{
    if name.len() <= 1 {
        None
    } else if name.last() == '.' {
        Some(name.len() - 1)
    } else {
        last_dot(name.drop_last())
    }
}

/// The name of the file at `path`, empty where it has none.
pub open spec fn basename_of(path: Seq<char>) -> Seq<char> {
    match file_name_of(path) {
        Some(name) => name,
        None => Seq::empty(),
    }
}

/// The name of the file at `path` without its extension.
pub open spec fn stem_of(path: Seq<char>) -> Seq<char> {
    let name = basename_of(path);
    match last_dot(name) {
        Some(dot) => name.take(dot),
        None => name,
    }
}

/// The extension of the file at `path`, in small letters.
pub open spec fn extension_of(path: Seq<char>) -> Seq<char> {
    let name = basename_of(path);
    match last_dot(name) {
        Some(dot) => lowercase(name.skip(dot + 1)),
        None => Seq::empty(),
    }
}

/// The name of the file at `path`, empty where it has none.
pub fn file_basename(path: &str) -> (r: String)
    ensures
        r@ == basename_of(path@),
{
    let segments = split(path, '/');
    let mut n: usize = segments.len();
    assert(views(segments@).take(n as int) =~= views(segments@));
    while n > 0
        invariant
            n <= segments@.len(),
            views(segments@) == pieces(path@, '/'),
            file_name_of(path@) == last_name(views(segments@).take(n as int)),
        decreases n,
    {
        let segment = to_chars(segments[n - 1].as_str());
        let ghost upto = views(segments@).take(n as int);
        assert(upto.last() == segment@);
        assert(upto.drop_last() =~= views(segments@).take(n - 1));
        if segment.len() == 0 {
            n = n - 1;
        } else if segment.len() == 1 && segment[0] == '.' {
            assert(segment@ =~= seq!['.']);
            n = n - 1;
        } else if segment.len() == 2 && segment[0] == '.' && segment[1] == '.' {
            assert(segment@ =~= seq!['.', '.']);
            return String::new();
        } else {
            return segments[n - 1].clone();
        }
    }
    String::new()
}

fn find_dot(name: &Vec<char>) -> (r: Option<usize>)
    ensures
        r is Some == (last_dot(name@) is Some),
        r matches Some(dot) ==> last_dot(name@) == Some(dot as int) && dot < name@.len(),
{
    let mut n: usize = name.len();
    assert(name@.take(n as int) =~= name@);
    while n > 1
        invariant
            n <= name@.len(),
            last_dot(name@) == last_dot(name@.take(n as int)),
        decreases n,
    {
        assert(name@.take(n as int).drop_last() =~= name@.take(n - 1));
        if name[n - 1] == '.' {
            return Some(n - 1);
        }
        n = n - 1;
    }
    None
}

/// The name of the file at `path` without its extension.
pub fn file_stem(path: &str) -> (r: String)
    ensures
        r@ == stem_of(path@),
{
    let base = file_basename(path);
    let name = to_chars(base.as_str());
    match find_dot(&name) {
        Some(dot) => {
            let stem = from_chars(slice_subrange(name.as_slice(), 0, dot));
            assert(stem@ =~= name@.take(dot as int));
            stem
        },
        None => base,
    }
}

/// The extension of the file at `path`, in small letters.
pub fn extension(path: &str) -> (r: String)
    ensures
        r@ == extension_of(path@),
{
    let name = to_chars(file_basename(path).as_str());
    match find_dot(&name) {
        Some(dot) => {
            let _bound: usize = name.len();
            let ending = from_chars(slice_subrange(name.as_slice(), dot + 1, name.len()));
            assert(ending@ =~= name@.skip(dot + 1));
            to_lowercase(ending.as_str())
        },
        None => String::new(),
    }
}

// ---------------------------------------------------------------------------
// Content types

/// The content type announced to a DLNA renderer for a file with this extension.
pub open spec fn dlna_type(ext: Seq<char>) -> Seq<char> {
    if ext == "mkv"@ {
        "video/x-matroska"@
    } else if ext == "avi"@ {
        "video/x-msvideo"@
    } else if ext == "mov"@ {
        "video/quicktime"@
    } else if ext == "webm"@ {
        "video/webm"@
    } else if ext == "ts"@ || ext == "m2ts"@ {
        "video/mp2t"@
    } else if ext == "mpg"@ {
        "video/mpeg"@
    } else if ext == "mp3"@ {
        "audio/mpeg"@
    } else if ext == "flac"@ {
        "audio/flac"@
    } else if ext == "m4a"@ {
        "audio/mp4"@
    } else if ext == "aac"@ {
        "audio/aac"@
    } else if ext == "wav"@ {
        "audio/wav"@
    } else {
        "video/mp4"@
    }
}

/// The extensions that both tables of content types know alike.
pub open spec fn common(ext: Seq<char>) -> bool {
    ||| ext == "mkv"@
    ||| ext == "avi"@
    ||| ext == "mov"@
    ||| ext == "webm"@
    ||| ext == "ts"@
    ||| ext == "m2ts"@
    ||| ext == "mpg"@
    ||| ext == "mp3"@
    ||| ext == "flac"@
    ||| ext == "m4a"@
    ||| ext == "aac"@
    ||| ext == "wav"@
}

/// The content type that a file with this extension is served under.
pub open spec fn serve_type(ext: Seq<char>) -> Seq<char> {
    if common(ext) {
        dlna_type(ext)
    } else if ext == "mp4"@ || ext == "m4v"@ {
        "video/mp4"@
    } else if ext == "mpeg"@ {
        "video/mpeg"@
    } else if ext == "wmv"@ {
        "video/x-ms-wmv"@
    } else if ext == "flv"@ {
        "video/x-flv"@
    } else if ext == "ogg"@ {
        "audio/ogg"@
    } else if ext == "opus"@ {
        "audio/opus"@
    } else {
        "application/octet-stream"@
    }
}

fn known_type(ext: &str) -> (r: Option<&'static str>)
    ensures
        match r {
            Some(mime) => common(ext@) && mime@ == dlna_type(ext@),
            None => !common(ext@),
        },
{
    if same(ext, "mkv") {
        Some("video/x-matroska")
    } else if same(ext, "avi") {
        Some("video/x-msvideo")
    } else if same(ext, "mov") {
        Some("video/quicktime")
    } else if same(ext, "webm") {
        Some("video/webm")
    } else if same(ext, "ts") || same(ext, "m2ts") {
        Some("video/mp2t")
    } else if same(ext, "mpg") {
        Some("video/mpeg")
    } else if same(ext, "mp3") {
        Some("audio/mpeg")
    } else if same(ext, "flac") {
        Some("audio/flac")
    } else if same(ext, "m4a") {
        Some("audio/mp4")
    } else if same(ext, "aac") {
        Some("audio/aac")
    } else if same(ext, "wav") {
        Some("audio/wav")
    } else {
        None
    }
}

/// The content type announced to a DLNA renderer for the file at `path`.
pub fn mime_for_dlna(path: &str) -> (r: String)
    ensures
        r@ == dlna_type(extension_of(path@)),
{
    let ext = extension(path);
    match known_type(ext.as_str()) {
        Some(mime) => mime.to_owned(),
        None => "video/mp4".to_owned(),
    }
}

/// The content type that the file at `path` is served under; what ffmpeg
/// makes of it is an MP4 stream.
pub open spec fn served_type(path: Seq<char>, transcode: bool) -> Seq<char> {
    if transcode {
        "video/mp4"@
    } else {
        serve_type(extension_of(path))
    }
}

/// The content type that the file at `path` is served under; what ffmpeg
/// makes of it is an MP4 stream.
pub fn content_type_for_serve(path: &str, transcode: bool) -> (r: String)
    ensures
        r@ == served_type(path@, transcode),
{
    if transcode {
        return "video/mp4".to_owned();
    }
    let ext = extension(path);
    if let Some(mime) = known_type(ext.as_str()) {
        return mime.to_owned();
    }
    if same(ext.as_str(), "mp4") || same(ext.as_str(), "m4v") {
        "video/mp4".to_owned()
    } else if same(ext.as_str(), "mpeg") {
        "video/mpeg".to_owned()
    } else if same(ext.as_str(), "wmv") {
        "video/x-ms-wmv".to_owned()
    } else if same(ext.as_str(), "flv") {
        "video/x-flv".to_owned()
    } else if same(ext.as_str(), "ogg") {
        "audio/ogg".to_owned()
    } else if same(ext.as_str(), "opus") {
        "audio/opus".to_owned()
    } else {
        "application/octet-stream".to_owned()
    }
}

// ---------------------------------------------------------------------------
// Text for others

/// What stands for a character in XML.
pub open spec fn entity(c: char) -> Seq<char> {
    if c == '&' {
        "&amp;"@
    } else if c == '<' {
        "&lt;"@
    } else if c == '>' {
        "&gt;"@
    } else if c == '"' {
        "&quot;"@
    } else if c == '\'' {
        "&apos;"@
    } else {
        seq![c]
    }
}

/// `text` as it stands in XML.
pub open spec fn escaped(text: Seq<char>) -> Seq<char>
    decreases text.len(),
{
    if text.len() == 0 {
        Seq::empty()
    } else {
        escaped(text.drop_last()) + entity(text.last())
    }
}

/// `value` as it stands in XML.
pub fn xml_escape(value: &str) -> (r: String)
    ensures
        r@ == escaped(value@),
{
    let t = to_chars(value);
    let mut out: String = String::new();
    for i in 0..t.len()
        invariant
            t@ == value@,
            out@ == escaped(value@.take(i as int)),
    {
        let c = t[i];
        assert(value@.take(i + 1).drop_last() =~= value@.take(i as int));
        if c == '&' {
            out.append("&amp;");
        } else if c == '<' {
            out.append("&lt;");
        } else if c == '>' {
            out.append("&gt;");
        } else if c == '"' {
            out.append("&quot;");
        } else if c == '\'' {
            out.append("&apos;");
        } else {
            let ghost before = out@;
            out.push(c);
            assert(before.push(c) =~= before + seq![c]);
        }
    }
    assert(value@.take(value@.len() as int) =~= value@);
    out
}

/// The characters that mark up XML.
pub open spec fn is_markup(c: char) -> bool {
    c == '<' || c == '>' || c == '"' || c == '\''
}

/// Escaped text holds no markup.
pub proof fn escaped_is_plain(text: Seq<char>)
    ensures
        forall|i: int| 0 <= i < escaped(text).len() ==> !is_markup(#[trigger] escaped(text)[i]),
    decreases text.len(),
{
    if text.len() > 0 {
        escaped_is_plain(text.drop_last());
        reveal_strlit("&amp;");
        reveal_strlit("&lt;");
        reveal_strlit("&gt;");
        reveal_strlit("&quot;");
        reveal_strlit("&apos;");
        let head = escaped(text.drop_last());
        let last = entity(text.last());
        assert forall|i: int| 0 <= i < escaped(text).len() implies !is_markup(
            #[trigger] escaped(text)[i],
        ) by {
            if i < head.len() {
                assert(escaped(text)[i] == head[i]);
            } else {
                assert(escaped(text)[i] == last[i - head.len()]);
            }
        }
    }
}

/// The hexadecimal digit for a value below 16.
pub open spec fn hex_digit(n: int) -> char {
    if n < 10 {
        (48 + n) as u32 as char
    } else {
        (87 + n) as u32 as char
    }
}

/// Two hexadecimal digits for each byte.
pub open spec fn hex(bytes: Seq<u8>) -> Seq<char> {
    Seq::new(
        2 * bytes.len(),
        |i: int|
            hex_digit(
                if i % 2 == 0 {
                    bytes[i / 2] as int / 16
                } else {
                    bytes[i / 2] as int % 16
                },
            ),
    )
}

fn digit_of(n: u8) -> (r: char)
    requires
        n < 16,
    ensures
        r == hex_digit(n as int),
{
    if n < 10 {
        (48 + n) as char
    } else {
        (87 + n) as char
    }
}

/// The token that these bytes make: two hexadecimal digits for each.
pub fn token_of(bytes: &[u8]) -> (r: String)
    ensures
        r@ == hex(bytes@),
{
    let mut out: String = String::new();
    for i in 0..bytes.len()
        invariant
            out@ =~= hex(bytes@.take(i as int)),
    {
        let byte = bytes[i];
        let ghost before = hex(bytes@.take(i as int));
        out.push(digit_of(byte / 16));
        out.push(digit_of(byte % 16));
        let ghost after = hex(bytes@.take(i + 1));
        assert forall|j: int| 0 <= j < 2 * i implies before[j] == after[j] by {
            assert(bytes@.take(i as int)[j / 2] == bytes@.take(i + 1)[j / 2]);
        }
    }
    assert(bytes@.take(bytes@.len() as int) =~= bytes@);
    out
}

proof fn hex_digits_differ(a: int, b: int)
    requires
        0 <= a < 16,
        0 <= b < 16,
        hex_digit(a) == hex_digit(b),
    ensures
        a == b,
{
    assert(hex_digit(a) as int == if a < 10 {
        48 + a
    } else {
        87 + a
    });
    assert(hex_digit(b) as int == if b < 10 {
        48 + b
    } else {
        87 + b
    });
}

/// Two lists of bytes with the same token are the same.
pub proof fn token_determines_bytes(a: Seq<u8>, b: Seq<u8>)
    requires
        hex(a) == hex(b),
    ensures
        a == b,
{
    assert(hex(a).len() == 2 * a.len() && hex(b).len() == 2 * b.len());
    assert forall|i: int| 0 <= i < a.len() implies a[i] == b[i] by {
        let j = 2 * i;
        assert(j / 2 == i && j % 2 == 0 && (j + 1) / 2 == i && (j + 1) % 2 == 1);
        assert(hex(a)[j] == hex_digit(a[i] as int / 16));
        assert(hex(b)[j] == hex_digit(b[i] as int / 16));
        assert(hex(a)[j + 1] == hex_digit(a[i] as int % 16));
        assert(hex(b)[j + 1] == hex_digit(b[i] as int % 16));
        hex_digits_differ(a[i] as int / 16, b[i] as int / 16);
        hex_digits_differ(a[i] as int % 16, b[i] as int % 16);
    }
    assert(a =~= b);
}

/// `rand::random` draws 24 bytes; which ones is left open.
#[verifier::external_body]
pub(crate) fn random_bytes() -> (r: [u8; 24]) {
    rand::random()
}

/// A token that nobody can guess: the hexadecimal digits of 24 random bytes.
pub fn random_token() -> (r: String)
    ensures
        exists|bytes: Seq<u8>| bytes.len() == 24 && r@ == #[trigger] hex(bytes),
{
    let bytes = random_bytes();
    let token = token_of(bytes.as_slice());
    assert(bytes@.len() == 24);
    token
}

/// The parts of a time of day, `hours:minutes:seconds` or less of it; none
/// where there are more than three.
pub open spec fn time_parts(value: Seq<char>) -> Option<Seq<Seq<char>>> {
    let parts = pieces(trimmed(value), ':');
    if parts.len() <= 3 {
        Some(parts)
    } else {
        None
    }
}

/// The parts of a time of day, `hours:minutes:seconds` or less of it; none
/// where there are more than three.
pub fn hms_parts(value: &str) -> (r: Option<Vec<String>>)
    ensures
        match r {
            Some(parts) => time_parts(value@) == Some(views(parts@)),
            None => time_parts(value@) is None,
        },
{
    let parts = split(trim(value).as_str(), ':');
    assert(views(parts@).len() == parts@.len());
    if parts.len() > 3 {
        None
    } else {
        Some(parts)
    }
}

// ---------------------------------------------------------------------------
// Processes

/// A process that `ss` lists, by its name and number, after an opening `(("`.
pub open spec fn process_at(text: Seq<char>) -> Option<(Seq<char>, int)> {
    match cut(text, seq!['"']) {
        Some((name, tail)) => match find_from(tail, "pid="@, 0) {
            Some(at) => match within(
                signed(leading_digits(tail.skip(at + 4))),
                i32::MIN as int,
                i32::MAX as int,
            ) {
                Some(pid) => Some((name, pid)),
                None => None,
            },
            None => None,
        },
        None => None,
    }
}

/// The processes that `ss` lists, up to a name that is not closed.
pub open spec fn processes(text: Seq<char>) -> Seq<(Seq<char>, int)>
    decreases text.len(),
{
    match find_from(text, seq!['(', '(', '"'], 0) {
        Some(at) => if 0 <= at && at + 3 <= text.len() && find_from(
            text.skip(at + 3),
            seq!['"'],
            0,
        ) is Some {
            let rest = text.skip(at + 3);
            match process_at(rest) {
                Some(found) => seq![found] + processes(rest),
                None => processes(rest),
            }
        } else {
            Seq::empty()
        },
        None => Seq::empty(),
    }
}

/// Names and numbers of processes.
pub open spec fn process_views(found: Seq<(String, i32)>) -> Seq<(Seq<char>, int)> {
    Seq::new(found.len(), |i: int| (found[i].0@, found[i].1 as int))
}

fn process_in(rest: &str) -> (r: Option<(String, i32)>)
    ensures
        match r {
            Some((name, pid)) => process_at(rest@) == Some((name@, pid as int)),
            None => process_at(rest@) is None,
        },
{
    proof {
        reveal_strlit("\"");
        reveal_strlit("pid=");
        assert("\""@ =~= seq!['"']);
    }
    match split_once(rest, "\"") {
        None => None,
        Some((name, tail)) => {
            let t = to_chars(tail.as_str());
            let key = to_chars("pid=");
            match find_chars(t.as_slice(), key.as_slice(), 0) {
                None => None,
                Some(at) => {
                    let _bound: usize = t.len();
                    let after = from_chars(slice_subrange(t.as_slice(), at + 4, t.len()));
                    assert(after@ =~= tail@.skip(at + 4));
                    match parse_i32(digits_prefix(after.as_str()).as_str()) {
                        Some(pid) => Some((name, pid)),
                        None => None,
                    }
                },
            }
        },
    }
}

/// The processes, by name and number, that `ss` lists.
pub fn processes_from_ss(text: &str) -> (r: Vec<(String, i32)>)
    ensures
        process_views(r@) == processes(text@),
{
    let mut found: Vec<(String, i32)> = Vec::new();
    let mut rest = to_chars(text);
    let open = to_chars("((\"");
    proof {
        reveal_strlit("((\"");
        assert(open@ =~= seq!['(', '(', '"']);
        assert(process_views(found@) + processes(text@) =~= processes(text@));
    }
    let quote: Vec<char> = vec!['"'];
    assert(quote@ =~= seq!['"']);
    loop
        invariant_except_break
            open@ == seq!['(', '(', '"'],
            quote@ == seq!['"'],
            processes(text@) == process_views(found@) + processes(rest@),
        ensures
            process_views(found@) == processes(text@),
        decreases rest@.len(),
    {
        match find_chars(rest.as_slice(), open.as_slice(), 0) {
            None => {
                assert(process_views(found@) + Seq::empty() =~= process_views(found@));
                break;
            },
            Some(at) => {
                let _bound: usize = rest.len();
                proof {
                    crate::text::find_is_first(rest@, open@, 0);
                }
                let next = from_chars(slice_subrange(rest.as_slice(), at + 3, rest.len()));
                assert(next@ =~= rest@.skip(at + 3));
                let tail = to_chars(next.as_str());
                if find_chars(tail.as_slice(), quote.as_slice(), 0).is_none() {
                    assert(process_views(found@) + Seq::empty() =~= process_views(found@));
                    break;
                }
                let ghost before = found@;
                if let Some((name, pid)) = process_in(next.as_str()) {
                    let ghost item = (name@, pid as int);
                    found.push((name, pid));
                    assert(process_views(found@) =~= process_views(before).push(item));
                    assert(process_views(before) + (seq![item] + processes(next@))
                        =~= process_views(found@) + processes(next@));
                }
                rest = tail;
            },
        }
    }
    found
}

/// A process of this program, or one that a Python interpreter runs.
pub open spec fn ours(name: Seq<char>) -> bool {
    has(name, "omarchy"@) || has(name, "python"@)
}

/// Whether a process of this name may be ended to free the port.
pub fn is_our_renderer_process(name: &str) -> (r: bool)
    ensures
        r == ours(name@),
{
    contains(name, "omarchy") || contains(name, "python")
}

/// The numbers of the processes of ours among those that `ss` lists.
pub open spec fn our_pids(found: Seq<(Seq<char>, int)>) -> Seq<int>
    decreases found.len(),
{
    if found.len() == 0 {
        Seq::empty()
    } else if ours(found.last().0) {
        our_pids(found.drop_last()).push(found.last().1)
    } else {
        our_pids(found.drop_last())
    }
}

/// The processes to end before the media server can listen: those of ours
/// among the ones that `ss` lists for the port.
pub fn pids_to_end(text: &str) -> (r: Vec<i32>)
    ensures
        Seq::new(r@.len(), |i: int| r@[i] as int) == our_pids(processes(text@)),
{
    let found = processes_from_ss(text);
    let mut pids: Vec<i32> = Vec::new();
    for i in 0..found.len()
        invariant
            process_views(found@) == processes(text@),
            Seq::new(pids@.len(), |j: int| pids@[j] as int) =~= our_pids(
                process_views(found@).take(i as int),
            ),
    {
        let ghost upto = process_views(found@).take(i + 1);
        assert(upto.drop_last() =~= process_views(found@).take(i as int));
        assert(upto.last() == (found@[i as int].0@, found@[i as int].1 as int));
        if is_our_renderer_process(found[i].0.as_str()) {
            pids.push(found[i].1);
        }
    }
    assert(process_views(found@).take(found@.len() as int) =~= process_views(found@));
    pids
}

/// How `ss` is asked for the processes that listen on the port.
pub open spec fn ss_words(port: u16) -> Seq<Seq<char>> {
    seq!["-ltnp"@, "sport = :"@ + decimal(port as nat)]
}

/// How `ss` is asked for the processes that listen on the port.
pub fn ss_args(port: u16) -> (r: Vec<String>)
    ensures
        views(r@) == ss_words(port),
{
    let mut filter = "sport = :".to_owned();
    filter.append(show(port as u64).as_str());
    let r = vec!["-ltnp".to_owned(), filter];
    assert(views(r@) =~= ss_words(port));
    r
}

// ---------------------------------------------------------------------------
// Laws

/// A file that is not named by an absolute path lies in its directory: the path
/// begins with that of the directory and ends with the name, and one slash
/// stands between them.
pub proof fn files_lie_below(base: Seq<char>, rest: Seq<char>)
    ensures
        begins(rest, seq!['/']) ==> below(base, rest) == rest,
        !begins(rest, seq!['/']) ==> {
            &&& base.len() == 0 ==> below(base, rest) == rest
            &&& below(base + seq!['/'], rest) == base + seq!['/'] + rest
            &&& base.len() > 0 && base.last() != '/' ==> below(base, rest) == base + seq!['/']
                + rest
        },
{
    if rest.len() > 0 {
        assert(rest.take(1) =~= seq![rest[0]]);
        if rest[0] == '/' {
            assert(begins(rest, seq!['/']));
        } else if begins(rest, seq!['/']) {
            assert(rest.take(1)[0] == '/');
        }
    }
    if base.len() == 0 {
        assert(base + rest =~= rest);
    }
    assert((base + seq!['/']).last() == '/');
    assert(base.push('/') =~= base + seq!['/']);
}

proof fn name_lies_below(base: Seq<char>, above: Seq<char>, name: Seq<char>, whole: Seq<char>)
    requires
        base.len() > 0 && base.last() != '/',
        above.len() > 0 ==> above.last() != '/',
        name.len() > 0 && name[0] != '/',
        whole =~= above + seq!['/'] + name,
    ensures
        below(base + above, name) == base + whole,
{
    assert((base + above).push('/') + name =~= base + whole);
}

/// What lives as long as the user is logged in stands in one directory below
/// that of the session, and what the user sets in one below that of the
/// configuration. Where the environment names neither, they are the usual ones.
pub proof fn places_are_the_usual_ones(env: Environment, token: Seq<char>)
    requires
        env.runtime_dir matches Some(dir) ==> dir@.len() > 0 && dir@.last() != '/',
        env.config_home matches Some(dir) ==> dir@.len() > 0 && dir@.last() != '/',
        env.home matches Some(dir) ==> dir@.len() > 0 && dir@.last() != '/',
        token.len() > 0 && token[0] != '/',
    ensures
        ({
            let run = match env.runtime_dir {
                Some(dir) => dir@,
                None => "/run/user/"@ + decimal(env.uid as nat),
            };
            let home = match env.home {
                Some(dir) => dir@,
                None => "."@,
            };
            let config = match env.config_home {
                Some(dir) => dir@,
                None => home + "/.config"@,
            };
            &&& env.socket() == run + "/universal-cast/castd.sock"@
            &&& env.lock() == run + "/universal-cast/castd.lock"@
            &&& env.subtitles(token) == run + "/universal-cast/subtitles/"@ + token
            &&& env.settings() == config + "/omarchy/cast/settings.json"@
            &&& env.draft() == env.settings() + ".tmp"@
            &&& env.addresses() == config + "/omarchy/cast/manual-ips"@
            &&& env.ledger() == config + "/omarchy/cast/firewall-rules"@
            &&& env.units_path() == config + "/systemd/user"@
        }),
{
    let run = env.runtime_path();
    let home = env.home_path();
    let config = env.config_root();
    assert(run.len() > 0 && run.last() != '/') by {
        if env.runtime_dir is None {
            decimal_denotes(env.uid as nat);
            let d = decimal(env.uid as nat);
            assert(crate::text::is_digit(d[d.len() - 1]));
        }
    }
    assert(home.len() > 0 && home.last() != '/') by {
        reveal_strlit(".");
    }
    assert(config.len() > 0 && config.last() != '/') by {
        reveal_strlit(".config");
    }
    assert(below(home, ".config"@) == home + "/.config"@) by {
        reveal_strlit(".config");
        reveal_strlit("/.config");
        reveal_strlit("");
        name_lies_below(home, ""@, ".config"@, "/.config"@);
        assert(home + ""@ =~= home);
    }
    assert(run + ""@ =~= run && config + ""@ =~= config) by {
        reveal_strlit("");
    }
    assert(below(run + ""@, "universal-cast"@) == run + "/universal-cast"@) by {
        reveal_strlit("");
        reveal_strlit("universal-cast");
        reveal_strlit("/universal-cast");
        name_lies_below(run, ""@, "universal-cast"@, "/universal-cast"@);
    }
    assert(below(run + "/universal-cast"@, "castd.sock"@) == run + "/universal-cast/castd.sock"@) by {
        reveal_strlit("/universal-cast");
        reveal_strlit("castd.sock");
        reveal_strlit("/universal-cast/castd.sock");
        name_lies_below(run, "/universal-cast"@, "castd.sock"@, "/universal-cast/castd.sock"@);
    }
    assert(below(run + "/universal-cast"@, "castd.lock"@) == run + "/universal-cast/castd.lock"@) by {
        reveal_strlit("/universal-cast");
        reveal_strlit("castd.lock");
        reveal_strlit("/universal-cast/castd.lock");
        name_lies_below(run, "/universal-cast"@, "castd.lock"@, "/universal-cast/castd.lock"@);
    }
    assert(below(run + "/universal-cast"@, "subtitles"@) == run + "/universal-cast/subtitles"@) by {
        reveal_strlit("/universal-cast");
        reveal_strlit("subtitles");
        reveal_strlit("/universal-cast/subtitles");
        name_lies_below(run, "/universal-cast"@, "subtitles"@, "/universal-cast/subtitles"@);
    }
    assert(below(config + ""@, "omarchy"@) == config + "/omarchy"@) by {
        reveal_strlit("");
        reveal_strlit("omarchy");
        reveal_strlit("/omarchy");
        name_lies_below(config, ""@, "omarchy"@, "/omarchy"@);
    }
    assert(below(config + "/omarchy"@, "cast"@) == config + "/omarchy/cast"@) by {
        reveal_strlit("/omarchy");
        reveal_strlit("cast");
        reveal_strlit("/omarchy/cast");
        name_lies_below(config, "/omarchy"@, "cast"@, "/omarchy/cast"@);
    }
    assert(below(config + "/omarchy/cast"@, "settings.json"@) == config + "/omarchy/cast/settings.json"@) by {
        reveal_strlit("/omarchy/cast");
        reveal_strlit("settings.json");
        reveal_strlit("/omarchy/cast/settings.json");
        name_lies_below(config, "/omarchy/cast"@, "settings.json"@, "/omarchy/cast/settings.json"@);
    }
    assert(below(config + "/omarchy/cast"@, "settings.json.tmp"@) == config + "/omarchy/cast/settings.json.tmp"@) by {
        reveal_strlit("/omarchy/cast");
        reveal_strlit("settings.json.tmp");
        reveal_strlit("/omarchy/cast/settings.json.tmp");
        name_lies_below(config, "/omarchy/cast"@, "settings.json.tmp"@, "/omarchy/cast/settings.json.tmp"@);
    }
    assert(below(config + "/omarchy/cast"@, "manual-ips"@) == config + "/omarchy/cast/manual-ips"@) by {
        reveal_strlit("/omarchy/cast");
        reveal_strlit("manual-ips");
        reveal_strlit("/omarchy/cast/manual-ips");
        name_lies_below(config, "/omarchy/cast"@, "manual-ips"@, "/omarchy/cast/manual-ips"@);
    }
    assert(below(config + "/omarchy/cast"@, "firewall-rules"@) == config + "/omarchy/cast/firewall-rules"@) by {
        reveal_strlit("/omarchy/cast");
        reveal_strlit("firewall-rules");
        reveal_strlit("/omarchy/cast/firewall-rules");
        name_lies_below(config, "/omarchy/cast"@, "firewall-rules"@, "/omarchy/cast/firewall-rules"@);
    }
    assert(below(config + ""@, "systemd"@) == config + "/systemd"@) by {
        reveal_strlit("");
        reveal_strlit("systemd");
        reveal_strlit("/systemd");
        name_lies_below(config, ""@, "systemd"@, "/systemd"@);
    }
    assert(below(config + "/systemd"@, "user"@) == config + "/systemd/user"@) by {
        reveal_strlit("/systemd");
        reveal_strlit("user");
        reveal_strlit("/systemd/user");
        name_lies_below(config, "/systemd"@, "user"@, "/systemd/user"@);
    }
    assert(env.subtitles(token) == run + "/universal-cast/subtitles/"@ + token) by {
        reveal_strlit("/universal-cast/subtitles");
        reveal_strlit("/universal-cast/subtitles/");
        assert(env.subtitles(token) =~= run + "/universal-cast/subtitles/"@ + token);
    }
    assert(env.draft() == env.settings() + ".tmp"@) by {
        reveal_strlit("/omarchy/cast/settings.json");
        reveal_strlit("/omarchy/cast/settings.json.tmp");
        reveal_strlit(".tmp");
        assert("/omarchy/cast/settings.json"@ + ".tmp"@ =~= "/omarchy/cast/settings.json.tmp"@);
        assert(env.draft() =~= env.settings() + ".tmp"@);
    }
}

/// The port is the one that the environment asks for by its number; where it
/// asks for none that there can be, it is the default one.
pub proof fn port_is_the_one_asked_for(port: u16, other: Seq<char>)
    ensures
        port_of(Some(decimal(port as nat))) == port,
        port_of(None) == 60020,
        unsigned(other) is None ==> port_of(Some(other)) == 60020,
        unsigned(other) matches Some(n) ==> (n > 65535 ==> port_of(Some(other)) == 60020),
{
    decimal_denotes(port as nat);
}

/// A path that begins with a tilde is one below the home directory; any other
/// stays as it is.
pub proof fn tilde_is_the_home(rest: Seq<char>, path: Seq<char>, home: Seq<char>)
    requires
        path.len() > 1 ==> !(path[0] == '~' && path[1] == '/'),
    ensures
        expanded("~/"@ + rest, home) == below(home, rest),
        expanded(path, home) == path,
{
    reveal_strlit("~/");
    let tilde = "~/"@ + rest;
    assert(tilde.take(2) =~= "~/"@);
    assert(tilde.skip(2) =~= rest);
    if begins(path, "~/"@) {
        assert(path.take(2)[0] == '~' && path.take(2)[1] == '/');
    }
}

proof fn pieces_are_joined(left: Seq<char>, sep: char, right: Seq<char>)
    ensures
        pieces(left + seq![sep] + right, sep) == pieces(left, sep) + pieces(right, sep),
    decreases left.len(),
{
    if left.contains(sep) {
        let at = left.index_of_first(sep)->0;
        left.index_of_first_ensures(sep);
        let head = left.take(at);
        let tail = left.skip(at + 1);
        assert(!head.contains(sep)) by {
            if head.contains(sep) {
                let j = choose|j: int| 0 <= j < head.len() && head[j] == sep;
                assert(left[j] == sep);
            }
        }
        assert(left =~= head + seq![sep] + tail);
        let rest = tail + seq![sep] + right;
        assert(left + seq![sep] + right =~= head + seq![sep] + rest);
        pieces_are_parted(head, sep, rest);
        pieces_are_parted(head, sep, tail);
        pieces_are_joined(tail, sep, right);
        assert(seq![head] + (pieces(tail, sep) + pieces(right, sep)) =~= (seq![head] + pieces(
            tail,
            sep,
        )) + pieces(right, sep));
    } else {
        pieces_are_parted(left, sep, right);
    }
}

/// What can be the name of a file: it is no way to a directory and holds no slash.
pub open spec fn is_name(name: Seq<char>) -> bool {
    name.len() > 0 && !name.contains('/') && name != seq!['.'] && name != seq!['.', '.']
}

/// The name of a file is what stands behind the last slash of its path; slashes
/// behind it do not count.
pub proof fn name_is_behind_the_last_slash(directory: Seq<char>, name: Seq<char>)
    requires
        is_name(name),
    ensures
        basename_of(directory + seq!['/'] + name) == name,
        basename_of(directory + seq!['/'] + name + seq!['/']) == name,
        basename_of(name) == name,
        basename_of(directory + seq!['/', '.', '.']).len() == 0,
{
    pieces_are_joined(directory, '/', name);
    pieces_are_parted(name, '/', Seq::empty());
    let all = pieces(directory + seq!['/'] + name, '/');
    assert(all.last() == name);
    assert(pieces(name, '/').last() == name);
    let path = directory + seq!['/'] + name;
    pieces_are_joined(path, '/', Seq::empty());
    assert(path + seq!['/'] + Seq::<char>::empty() =~= path + seq!['/']);
    let none = Seq::<char>::empty();
    assert(!none.contains('/'));
    pieces_are_parted(none, '/', none);
    let slashed = pieces(path + seq!['/'], '/');
    assert(slashed =~= all.push(none));
    assert(slashed.drop_last() =~= all);
    let up = seq!['.', '.'];
    assert(!up.contains('/')) by {
        if up.contains('/') {
            let j = choose|j: int| 0 <= j < up.len() && up[j] == '/';
            assert(up[j] == '.');
        }
    }
    pieces_are_joined(directory, '/', up);
    pieces_are_parted(up, '/', none);
    assert(directory + seq!['/'] + up =~= directory + seq!['/', '.', '.']);
    assert(pieces(directory + seq!['/'] + up, '/').last() == up);
}

proof fn dot_is_the_last(stem: Seq<char>, ending: Seq<char>)
    requires
        stem.len() > 0,
        !ending.contains('.'),
    ensures
        last_dot(stem + seq!['.'] + ending) == Some(stem.len() as int),
    decreases ending.len(),
{
    let name = stem + seq!['.'] + ending;
    if ending.len() > 0 {
        assert(ending.contains(ending.last()));
        let shorter = ending.drop_last();
        assert(!shorter.contains('.')) by {
            if shorter.contains('.') {
                let j = choose|j: int| 0 <= j < shorter.len() && shorter[j] == '.';
                assert(ending[j] == '.');
            }
        }
        dot_is_the_last(stem, shorter);
        assert(name.drop_last() =~= stem + seq!['.'] + shorter);
    } else {
        assert(name =~= stem + seq!['.']);
    }
}

proof fn no_dot_is_found(name: Seq<char>)
    requires
        forall|i: int| 1 <= i < name.len() ==> name[i] != '.',
    ensures
        last_dot(name) is None,
    decreases name.len(),
{
    if name.len() > 1 {
        no_dot_is_found(name.drop_last());
    }
}

/// The extension of a file is what stands behind the last dot of its name, in
/// small letters, and its stem what stands before. A name that only begins with
/// a dot, or holds none, has no extension.
pub proof fn extension_is_behind_the_last_dot(
    directory: Seq<char>,
    stem: Seq<char>,
    ending: Seq<char>,
)
    requires
        stem.len() > 0 && !stem.contains('/'),
        ending.len() > 0 && !ending.contains('/') && !ending.contains('.'),
    ensures
        stem_of(directory + seq!['/'] + (stem + seq!['.'] + ending)) == stem,
        extension_of(directory + seq!['/'] + (stem + seq!['.'] + ending)) == lowercase(ending),
        stem_of(directory + seq!['/'] + ending) == ending,
        extension_of(directory + seq!['/'] + ending).len() == 0,
        stem_of(directory + seq!['/'] + (seq!['.'] + ending)) == seq!['.'] + ending,
        extension_of(directory + seq!['/'] + (seq!['.'] + ending)).len() == 0,
{
    let name = stem + seq!['.'] + ending;
    assert(ending.contains(ending[0]));
    assert(name.last() == ending.last() && ending.contains(ending.last()));
    assert(is_name(name)) by {
        if name.contains('/') {
            let j = choose|j: int| 0 <= j < name.len() && name[j] == '/';
            if j < stem.len() {
                assert(stem[j] == '/');
            } else {
                assert(ending[j - stem.len() - 1] == '/');
            }
        }
    }
    name_is_behind_the_last_slash(directory, name);
    dot_is_the_last(stem, ending);
    assert(name.take(stem.len() as int) =~= stem);
    assert(name.skip(stem.len() as int + 1) =~= ending);
    name_is_behind_the_last_slash(directory, ending);
    assert forall|i: int| 1 <= i < ending.len() implies ending[i] != '.' by {
        assert(ending.contains(ending[i]));
    }
    no_dot_is_found(ending);
    let hidden = seq!['.'] + ending;
    assert(is_name(hidden)) by {
        assert(hidden.last() == ending.last());
        if hidden.contains('/') {
            let j = choose|j: int| 0 <= j < hidden.len() && hidden[j] == '/';
            assert(ending[j - 1] == '/');
        }
    }
    name_is_behind_the_last_slash(directory, hidden);
    assert forall|i: int| 1 <= i < hidden.len() implies hidden[i] != '.' by {
        assert(ending.contains(ending[i - 1]));
    }
    no_dot_is_found(hidden);
}

/// An extension and the type of what such a file holds, where both tables know it.
pub open spec fn widely_known(ext: Seq<char>, mime: Seq<char>) -> bool {
    ||| ext == "mkv"@ && mime == "video/x-matroska"@
    ||| ext == "avi"@ && mime == "video/x-msvideo"@
    ||| ext == "mov"@ && mime == "video/quicktime"@
    ||| ext == "webm"@ && mime == "video/webm"@
    ||| ext == "ts"@ && mime == "video/mp2t"@
    ||| ext == "m2ts"@ && mime == "video/mp2t"@
    ||| ext == "mpg"@ && mime == "video/mpeg"@
    ||| ext == "mp3"@ && mime == "audio/mpeg"@
    ||| ext == "flac"@ && mime == "audio/flac"@
    ||| ext == "m4a"@ && mime == "audio/mp4"@
    ||| ext == "aac"@ && mime == "audio/aac"@
    ||| ext == "wav"@ && mime == "audio/wav"@
}

/// An extension and the type of what such a file holds, where it is served only.
pub open spec fn known_to_the_server(ext: Seq<char>, mime: Seq<char>) -> bool {
    ||| ext == "mp4"@ && mime == "video/mp4"@
    ||| ext == "m4v"@ && mime == "video/mp4"@
    ||| ext == "mpeg"@ && mime == "video/mpeg"@
    ||| ext == "wmv"@ && mime == "video/x-ms-wmv"@
    ||| ext == "flv"@ && mime == "video/x-flv"@
    ||| ext == "ogg"@ && mime == "audio/ogg"@
    ||| ext == "opus"@ && mime == "audio/opus"@
}

/// Each extension stands for the type of what such files hold. What is made on
/// the way is MP4 whatever the file is. Of a file with another extension a
/// renderer is told that it is MP4, and it is served as mere bytes.
pub proof fn extensions_stand_for_their_types(ext: Seq<char>, mime: Seq<char>, path: Seq<char>)
    ensures
        widely_known(ext, mime) ==> dlna_type(ext) == mime && serve_type(ext) == mime,
        known_to_the_server(ext, mime) ==> serve_type(ext) == mime && dlna_type(ext)
            == "video/mp4"@,
        (forall|m: Seq<char>| !(#[trigger] widely_known(ext, m))) && (forall|m: Seq<char>|
            !(#[trigger] known_to_the_server(ext, m))) ==> dlna_type(ext) == "video/mp4"@ && serve_type(ext) == "application/octet-stream"@,
        served_type(path, true) == "video/mp4"@,
        extension_of(path) == ext && (widely_known(ext, mime) || known_to_the_server(ext, mime))
            ==> served_type(path, false) == mime,
{
    reveal_strlit("mkv");
    reveal_strlit("avi");
    reveal_strlit("mov");
    reveal_strlit("webm");
    reveal_strlit("ts");
    reveal_strlit("m2ts");
    reveal_strlit("mpg");
    reveal_strlit("mp3");
    reveal_strlit("flac");
    reveal_strlit("m4a");
    reveal_strlit("aac");
    reveal_strlit("wav");
    reveal_strlit("mp4");
    reveal_strlit("m4v");
    reveal_strlit("mpeg");
    reveal_strlit("wmv");
    reveal_strlit("flv");
    reveal_strlit("ogg");
    reveal_strlit("opus");
    assert("mkv"@.len() == 3);
    assert("avi"@.len() == 3);
    assert("mov"@.len() == 3);
    assert("webm"@.len() == 4);
    assert("ts"@.len() == 2);
    assert("m2ts"@.len() == 4);
    assert("mpg"@.len() == 3);
    assert("mp3"@.len() == 3);
    assert("flac"@.len() == 4);
    assert("m4a"@.len() == 3);
    assert("aac"@.len() == 3);
    assert("wav"@.len() == 3);
    assert("mp4"@.len() == 3);
    assert("m4v"@.len() == 3);
    assert("mpeg"@.len() == 4);
    assert("wmv"@.len() == 3);
    assert("flv"@.len() == 3);
    assert("ogg"@.len() == 3);
    assert("opus"@.len() == 4);
    assert("mkv"@[0] != "avi"@[0]);
    assert("mkv"@[1] != "mov"@[1]);
    assert("mkv"@[1] != "mpg"@[1]);
    assert("mkv"@[1] != "mp3"@[1]);
    assert("mkv"@[1] != "m4a"@[1]);
    assert("mkv"@[0] != "aac"@[0]);
    assert("mkv"@[0] != "wav"@[0]);
    assert("mkv"@[1] != "mp4"@[1]);
    assert("mkv"@[1] != "m4v"@[1]);
    assert("mkv"@[0] != "wmv"@[0]);
    assert("mkv"@[0] != "flv"@[0]);
    assert("mkv"@[0] != "ogg"@[0]);
    assert("avi"@[0] != "mov"@[0]);
    assert("avi"@[0] != "mpg"@[0]);
    assert("avi"@[0] != "mp3"@[0]);
    assert("avi"@[0] != "m4a"@[0]);
    assert("avi"@[1] != "aac"@[1]);
    assert("avi"@[0] != "wav"@[0]);
    assert("avi"@[0] != "mp4"@[0]);
    assert("avi"@[0] != "m4v"@[0]);
    assert("avi"@[0] != "wmv"@[0]);
    assert("avi"@[0] != "flv"@[0]);
    assert("avi"@[0] != "ogg"@[0]);
    assert("mov"@[1] != "mpg"@[1]);
    assert("mov"@[1] != "mp3"@[1]);
    assert("mov"@[1] != "m4a"@[1]);
    assert("mov"@[0] != "aac"@[0]);
    assert("mov"@[0] != "wav"@[0]);
    assert("mov"@[1] != "mp4"@[1]);
    assert("mov"@[1] != "m4v"@[1]);
    assert("mov"@[0] != "wmv"@[0]);
    assert("mov"@[0] != "flv"@[0]);
    assert("mov"@[0] != "ogg"@[0]);
    assert("webm"@[0] != "m2ts"@[0]);
    assert("webm"@[0] != "flac"@[0]);
    assert("webm"@[0] != "mpeg"@[0]);
    assert("webm"@[0] != "opus"@[0]);
    assert("m2ts"@[0] != "flac"@[0]);
    assert("m2ts"@[1] != "mpeg"@[1]);
    assert("m2ts"@[0] != "opus"@[0]);
    assert("mpg"@[2] != "mp3"@[2]);
    assert("mpg"@[1] != "m4a"@[1]);
    assert("mpg"@[0] != "aac"@[0]);
    assert("mpg"@[0] != "wav"@[0]);
    assert("mpg"@[2] != "mp4"@[2]);
    assert("mpg"@[1] != "m4v"@[1]);
    assert("mpg"@[0] != "wmv"@[0]);
    assert("mpg"@[0] != "flv"@[0]);
    assert("mpg"@[0] != "ogg"@[0]);
    assert("mp3"@[1] != "m4a"@[1]);
    assert("mp3"@[0] != "aac"@[0]);
    assert("mp3"@[0] != "wav"@[0]);
    assert("mp3"@[2] != "mp4"@[2]);
    assert("mp3"@[1] != "m4v"@[1]);
    assert("mp3"@[0] != "wmv"@[0]);
    assert("mp3"@[0] != "flv"@[0]);
    assert("mp3"@[0] != "ogg"@[0]);
    assert("flac"@[0] != "mpeg"@[0]);
    assert("flac"@[0] != "opus"@[0]);
    assert("m4a"@[0] != "aac"@[0]);
    assert("m4a"@[0] != "wav"@[0]);
    assert("m4a"@[1] != "mp4"@[1]);
    assert("m4a"@[2] != "m4v"@[2]);
    assert("m4a"@[0] != "wmv"@[0]);
    assert("m4a"@[0] != "flv"@[0]);
    assert("m4a"@[0] != "ogg"@[0]);
    assert("aac"@[0] != "wav"@[0]);
    assert("aac"@[0] != "mp4"@[0]);
    assert("aac"@[0] != "m4v"@[0]);
    assert("aac"@[0] != "wmv"@[0]);
    assert("aac"@[0] != "flv"@[0]);
    assert("aac"@[0] != "ogg"@[0]);
    assert("wav"@[0] != "mp4"@[0]);
    assert("wav"@[0] != "m4v"@[0]);
    assert("wav"@[1] != "wmv"@[1]);
    assert("wav"@[0] != "flv"@[0]);
    assert("wav"@[0] != "ogg"@[0]);
    assert("mp4"@[1] != "m4v"@[1]);
    assert("mp4"@[0] != "wmv"@[0]);
    assert("mp4"@[0] != "flv"@[0]);
    assert("mp4"@[0] != "ogg"@[0]);
    assert("m4v"@[0] != "wmv"@[0]);
    assert("m4v"@[0] != "flv"@[0]);
    assert("m4v"@[0] != "ogg"@[0]);
    assert("mpeg"@[0] != "opus"@[0]);
    assert("wmv"@[0] != "flv"@[0]);
    assert("wmv"@[0] != "ogg"@[0]);
    assert("flv"@[0] != "ogg"@[0]);
    assert(widely_known(ext, dlna_type(ext)) || !common(ext));
    assert(known_to_the_server(ext, serve_type(ext)) || common(ext) || serve_type(ext)
        == "application/octet-stream"@);
    if !common(ext) && !known_to_the_server(ext, serve_type(ext)) {
        assert(serve_type(ext) == "application/octet-stream"@);
    } else {
        assert(widely_known(ext, dlna_type(ext)) || known_to_the_server(ext, serve_type(ext)));
        assert(!widely_known(ext, serve_type(ext)) ==> known_to_the_server(ext, serve_type(ext)));
    }
}

/// Text is escaped character by character: what marks up XML becomes the
/// reference of that name, and all else stays.
pub proof fn markup_becomes_references(left: Seq<char>, right: Seq<char>, c: char)
    ensures
        escaped(left + right) == escaped(left) + escaped(right),
        escaped(left.push('&')) == escaped(left) + "&amp;"@,
        escaped(left.push('<')) == escaped(left) + "&lt;"@,
        escaped(left.push('>')) == escaped(left) + "&gt;"@,
        escaped(left.push('"')) == escaped(left) + "&quot;"@,
        escaped(left.push('\'')) == escaped(left) + "&apos;"@,
        !is_markup(c) && c != '&' ==> escaped(left.push(c)) == escaped(left).push(c),
        escaped(Seq::empty()).len() == 0,
    decreases right.len(),
{
    if right.len() > 0 {
        markup_becomes_references(left, right.drop_last(), c);
        assert((left + right).drop_last() =~= left + right.drop_last());
        assert(escaped(left + right) =~= escaped(left) + escaped(right));
    } else {
        assert(left + right =~= left);
        assert(escaped(left) + escaped(right) =~= escaped(left));
    }
    assert(left.push('&').drop_last() =~= left);
    assert(left.push('<').drop_last() =~= left);
    assert(left.push('>').drop_last() =~= left);
    assert(left.push('"').drop_last() =~= left);
    assert(left.push('\'').drop_last() =~= left);
    assert(left.push(c).drop_last() =~= left);
    assert(escaped(left) + seq![c] =~= escaped(left).push(c));
}

/// What a hexadecimal digit counts.
pub open spec fn hex_value(c: char) -> int {
    if '0' <= c && c <= '9' {
        c as int - '0' as int
    } else {
        c as int - 'a' as int + 10
    }
}

/// A token names its bytes one by one with two hexadecimal digits each, in
/// small letters, the greater one first.
pub proof fn token_spells_its_bytes(bytes: Seq<u8>, i: int)
    requires
        0 <= i < bytes.len(),
    ensures
        hex(bytes).len() == 2 * bytes.len(),
        hex_value(hex(bytes)[2 * i]) * 16 + hex_value(hex(bytes)[2 * i + 1]) == bytes[i],
        forall|k: int|
            0 <= k < hex(bytes).len() ==> '0' <= #[trigger] hex(bytes)[k] <= '9' || 'a' <= hex(
                bytes,
            )[k] <= 'f',
{
    let j = 2 * i;
    assert(j / 2 == i && j % 2 == 0 && (j + 1) / 2 == i && (j + 1) % 2 == 1);
    let b = bytes[i] as int;
    assert(hex(bytes)[j] == hex_digit(b / 16));
    assert(hex(bytes)[j + 1] == hex_digit(b % 16));
    assert(0 <= b / 16 < 16 && 0 <= b % 16 < 16);
    assert forall|k: int| 0 <= k < hex(bytes).len() implies '0' <= #[trigger] hex(bytes)[k] <= '9'
        || 'a' <= hex(bytes)[k] <= 'f' by {
        let one = bytes[k / 2] as int;
        assert(0 <= one / 16 < 16 && 0 <= one % 16 < 16);
    }
}

/// A time of day is read in its parts, which colons part; one with a fourth
/// part is no time of day.
pub proof fn times_are_parted(
    hours: Seq<char>,
    minutes: Seq<char>,
    seconds: Seq<char>,
    more: Seq<char>,
)
    requires
        hours.len() > 0 && crate::text::all_digits(hours),
        minutes.len() > 0 && crate::text::all_digits(minutes),
        seconds.len() > 0 && crate::text::all_digits(seconds),
        more.len() > 0 && crate::text::all_digits(more),
    ensures
        time_parts(seconds) == Some(seq![seconds]),
        time_parts(minutes + seq![':'] + seconds) == Some(seq![minutes, seconds]),
        time_parts(hours + seq![':'] + (minutes + seq![':'] + seconds)) == Some(
            seq![hours, minutes, seconds],
        ),
        time_parts(hours + seq![':'] + (minutes + seq![':'] + (seconds + seq![':'] + more)))
            is None,
{
    assert forall|t: Seq<char>| t.len() > 0 && crate::text::all_digits(t) implies !(
    #[trigger] t.contains(':')) by {
        if t.contains(':') {
            let j = choose|j: int| 0 <= j < t.len() && t[j] == ':';
            assert(crate::text::is_digit(t[j]));
        }
    }
    let late = minutes + seq![':'] + seconds;
    let day = hours + seq![':'] + late;
    let long = seconds + seq![':'] + more;
    let longer = minutes + seq![':'] + long;
    let longest = hours + seq![':'] + longer;
    crate::text::trimmed_is_between(seconds);
    crate::text::trimmed_is_between(late);
    crate::text::trimmed_is_between(day);
    crate::text::trimmed_is_between(longest);
    assert(crate::text::is_digit(seconds[0]) && crate::text::is_digit(seconds.last()));
    assert(crate::text::is_digit(minutes[0]) && late.last() == seconds.last());
    assert(crate::text::is_digit(hours[0]) && day.last() == seconds.last());
    assert(crate::text::is_digit(more.last()) && longest.last() == more.last());
    assert(!more.contains(':') && !seconds.contains(':') && !minutes.contains(':')
        && !hours.contains(':'));
    pieces_are_parted(more, ':', Seq::empty());
    pieces_are_parted(seconds, ':', more);
    pieces_are_parted(minutes, ':', seconds);
    pieces_are_parted(hours, ':', late);
    pieces_are_parted(minutes, ':', long);
    pieces_are_parted(hours, ':', longer);
    assert(pieces(late, ':') =~= seq![minutes, seconds]);
    assert(pieces(day, ':') =~= seq![hours, minutes, seconds]);
    assert(pieces(longest, ':').len() == 4);
}

proof fn digits_are_leading(digits: Seq<char>, rest: Seq<char>)
    requires
        crate::text::all_digits(digits),
        rest.len() > 0 && !crate::text::is_digit(rest[0]),
    ensures
        leading_digits(digits + rest) == digits,
    decreases digits.len(),
{
    let all = digits + rest;
    if digits.len() > 0 {
        let fewer = digits.skip(1);
        assert(crate::text::is_digit(digits[0]));
        assert(crate::text::all_digits(fewer)) by {
            assert forall|i: int| 0 <= i < fewer.len() implies crate::text::is_digit(
                #[trigger] fewer[i],
            ) by {
                assert(crate::text::is_digit(digits[i + 1]));
            }
        }
        digits_are_leading(fewer, rest);
        assert(all.skip(1) =~= fewer + rest);
        assert(seq![digits[0]] + fewer =~= digits);
    } else {
        assert(all =~= rest);
    }
    assert(leading_digits(all) =~= digits);
}

/// A process that `ss` lists is read with its name and its number.
pub proof fn listed_process_is_read(name: Seq<char>, pid: nat, rest: Seq<char>)
    requires
        !name.contains('"'),
        pid <= i32::MAX,
    ensures
        process_at(name + seq!['"'] + (",pid="@ + (decimal(pid) + (seq![','] + rest)))) == Some(
            (name, pid as int),
        ),
{
    reveal_strlit(",pid=");
    reveal_strlit("pid=");
    let behind = decimal(pid) + (seq![','] + rest);
    let tail = ",pid="@ + behind;
    let one = seq!['"'];
    crate::text::cut_is_at_the_first(name, '"', tail);
    assert(tail.subrange(1, 5) =~= "pid="@);
    assert(crate::text::occurs_at(tail, "pid="@, 1));
    assert(!crate::text::occurs_at(tail, "pid="@, 0)) by {
        assert(tail.subrange(0, 4)[0] == ',');
        assert("pid="@[0] == 'p');
    }
    crate::text::find_is_first(tail, "pid="@, 0);
    assert(find_from(tail, "pid="@, 0) == Some(1int));
    assert(tail.skip(5) =~= behind);
    decimal_denotes(pid);
    digits_are_leading(decimal(pid), seq![','] + rest);
}

/// The processes that are ended to free the port are those listed whose name
/// holds the name of this program or of the interpreter, and no others.
pub proof fn only_our_processes_are_ended(
    found: Seq<(Seq<char>, int)>,
    left: Seq<char>,
    right: Seq<char>,
    name: Seq<char>,
)
    ensures
        ours(left + "omarchy"@ + right),
        ours(left + "python"@ + right),
        !(has(name, "omarchy"@) || has(name, "python"@)) ==> !ours(name),
        forall|i: int|
            0 <= i < found.len() && ours(#[trigger] found[i].0) ==> our_pids(found).contains(
                found[i].1,
            ),
        forall|pid: int| #[trigger]
            our_pids(found).contains(pid) ==> exists|i: int|
                0 <= i < found.len() && ours(#[trigger] found[i].0) && found[i].1 == pid,
        our_pids(found).len() <= found.len(),
    decreases found.len(),
{
    let a = left + "omarchy"@ + right;
    let b = left + "python"@ + right;
    let at = left.len() as int;
    assert(a.subrange(at, at + "omarchy"@.len()) =~= "omarchy"@);
    assert(crate::text::occurs_at(a, "omarchy"@, at));
    assert(b.subrange(at, at + "python"@.len()) =~= "python"@);
    assert(crate::text::occurs_at(b, "python"@, at));
    if found.len() > 0 {
        let fewer = found.drop_last();
        only_our_processes_are_ended(fewer, left, right, name);
        let head = our_pids(fewer);
        let all = our_pids(found);
        assert forall|i: int| 0 <= i < found.len() && ours(
            #[trigger] found[i].0,
        ) implies all.contains(found[i].1) by {
            if i < fewer.len() {
                assert(ours(fewer[i].0));
                assert(head.contains(fewer[i].1));
                let k = choose|k: int| 0 <= k < head.len() && head[k] == fewer[i].1;
                assert(all[k] == found[i].1);
            } else {
                assert(all[all.len() - 1] == found[i].1);
            }
        }
        assert forall|pid: int| #[trigger] all.contains(pid) implies exists|i: int|
            0 <= i < found.len() && ours(#[trigger] found[i].0) && found[i].1 == pid by {
            let k = choose|k: int| 0 <= k < all.len() && all[k] == pid;
            if k < head.len() {
                assert(head[k] == pid);
                assert(head.contains(pid));
                let i = choose|i: int|
                    0 <= i < fewer.len() && ours(#[trigger] fewer[i].0) && fewer[i].1 == pid;
                assert(ours(found[i].0));
            } else {
                assert(ours(found[found.len() - 1].0));
            }
        }
    }
}

/// `ss` is asked for the processes, by number, that listen over TCP on the port.
pub proof fn listeners_are_asked_for(port: u16)
    ensures
        ss_words(port).len() == 2,
        ss_words(port)[0] == "-ltnp"@,
        ss_words(port)[1] == "sport = :"@ + decimal(port as nat),
{
}

/// The list of receivers is taken anew after twenty seconds.
pub proof fn list_stays_fresh_for_a_while()
    ensures
        DISCOVER_TTL == 20,
{
}

/// Every process that `ss` lists is taken up in turn: what stands behind an
/// opening is read as one, and where there is no opening there is none.
pub proof fn processes_are_listed_in_turn(name: Seq<char>, tail: Seq<char>, text: Seq<char>)
    ensures
        ({
            let rest = name + seq!['"'] + tail;
            processes(seq!['(', '(', '"'] + rest) == match process_at(rest) {
                Some(found) => seq![found] + processes(rest),
                None => processes(rest),
            }
        }),
        !(has(text, seq!['(', '(', '"'])) ==> processes(text).len() == 0,
{
    let open = seq!['(', '(', '"'];
    let one = seq!['"'];
    let rest = name + one + tail;
    let all = open + rest;
    assert(all.subrange(0, 3) =~= open);
    assert(crate::text::occurs_at(all, open, 0));
    crate::text::find_is_first(all, open, 0);
    assert(find_from(all, open, 0) == Some(0int));
    assert(all.skip(3) =~= rest);
    let at = name.len() as int;
    assert(rest.subrange(at, at + 1) =~= one);
    assert(crate::text::occurs_at(rest, one, at));
    crate::text::find_is_first(rest, one, 0);
    crate::text::has_is_found(text, open);
}

} // verus!
