//! Matter targets and the `chip-tool` command lines that drive them.
//!
//! The commands are run by a process launcher outside this library; here
//! they are built, and their outputs judged.

use crate::text::{
    chars_of, contains_chars, decimal, is_ascii_digit, is_ascii_hexdigit, is_digit, is_hex_digit,
    is_white_space, lemma_decimal_reads_back, lemma_trimmed_frame, occurs_in, parse_u16,
    parses_as_u16, push_decimal, push_str, string_from, trim, trimmed, unsigned_body,
};
use crate::time::{millis_of, Duration};
use vstd::prelude::*;
use vstd::slice::slice_subrange;

verus! {

/// Why a node identifier is refused.
#[derive(Clone, Copy, Debug, PartialEq, Eq, Structural)]
pub enum NodeIdError {
    /// Nothing but white space.
    Empty,
    /// Neither decimal nor `0x`-prefixed hexadecimal.
    NotNumeric,
}

/// A failure of a Matter operation.
#[derive(Clone, Debug, PartialEq, Eq)]
pub enum MatterError {
    NodeId(NodeIdError),
    /// The target has no `:` between node and endpoint.
    MissingEndpointSeparator,
    /// The endpoint (given here) is not a 16-bit unsigned number.
    InvalidEndpoint(String),
    /// The setup code is empty.
    EmptySetupCode,
    /// chip-tool exited with a non-zero status; its combined output is given.
    ChipToolFailed { status: i32, detail: String },
}

/// `v` without a leading `0x` or `0X`, if it has one.
pub open spec fn strip_hex_prefix(v: Seq<char>) -> Option<Seq<char>> {
    if v.len() >= 2 && v[0] == '0' && (v[1] == 'x' || v[1] == 'X') {
        Some(v.skip(2))
    } else {
        None
    }
}

/// Whether a node identifier is decimal, or `0x`-prefixed hexadecimal,
/// once trimmed.
pub open spec fn node_id_check(node_id: Seq<char>) -> Result<(), NodeIdError> {
    let v = trimmed(node_id);
    if v.len() == 0 {
        Err(NodeIdError::Empty)
    } else {
        let valid = match strip_hex_prefix(v) {
            Some(hex) => hex.len() > 0 && forall|i: int| 0 <= i < hex.len() ==> is_hex_digit(#[trigger] hex[i]),
            None => forall|i: int| 0 <= i < v.len() ==> is_digit(#[trigger] v[i]),
        };
        if valid {
            Ok(())
        } else {
            Err(NodeIdError::NotNumeric)
        }
    }
}

fn all_hex(s: &[char], from: usize) -> (b: bool)
    requires
        from <= s@.len(),
    ensures
        b == forall|i: int| from <= i < s@.len() ==> is_hex_digit(#[trigger] s@[i]),
{
    let mut i = from;
    while i < s.len()
        invariant
            from <= i <= s@.len(),
            forall|k: int| from <= k < i ==> is_hex_digit(#[trigger] s@[k]),
        decreases s@.len() - i,
    {
        if !is_ascii_hexdigit(s[i]) {
            return false;
        }
        i = i + 1;
    }
    true
}

fn all_digits(s: &[char]) -> (b: bool)
    ensures
        b == forall|i: int| 0 <= i < s@.len() ==> is_digit(#[trigger] s@[i]),
{
    let mut i: usize = 0;
    while i < s.len()
        invariant
            i <= s@.len(),
            forall|k: int| 0 <= k < i ==> is_digit(#[trigger] s@[k]),
        decreases s@.len() - i,
    {
        if !is_ascii_digit(s[i]) {
            return false;
        }
        i = i + 1;
    }
    true
}

/// Check that a node identifier is decimal or `0x`-prefixed hexadecimal
/// (surrounding white space is ignored).
pub fn validate_node_id(node_id: &str) -> (r: Result<(), NodeIdError>)
    ensures
        r == node_id_check(node_id@),
{
    let cs = chars_of(node_id);
    let v = trim(cs.as_slice());
    if v.len() == 0 {
        return Err(NodeIdError::Empty);
    }
    let valid = if v.len() >= 2 && v[0] == '0' && (v[1] == 'x' || v[1] == 'X') {
        let ok = v.len() > 2 && all_hex(v.as_slice(), 2);
        proof {
            let hex = v@.skip(2);
            assert(ok == (hex.len() > 0 && forall|i: int|
                0 <= i < hex.len() ==> is_hex_digit(#[trigger] hex[i]))) by {
                if hex.len() > 0 && !ok {
                    let k = choose|k: int| 2 <= k < v@.len() && !is_hex_digit(v@[k]);
                    assert(!is_hex_digit(hex[k - 2]));
                }
            }
        }
        ok
    } else {
        all_digits(v.as_slice())
    };
    if valid {
        Ok(())
    } else {
        Err(NodeIdError::NotNumeric)
    }
}

/// The index of the last occurrence of `c` in `s`.
pub open spec fn last_index_of(s: Seq<char>, c: char) -> Option<nat>
    decreases s.len(),
{
    if s.len() == 0 {
        None
    } else if s.last() == c {
        Some((s.len() - 1) as nat)
    } else {
        last_index_of(s.drop_last(), c)
    }
}

proof fn lemma_last_index_of(s: Seq<char>, c: char, i: nat)
    requires
        i <= s.len(),
        forall|k: int| i <= k < s.len() ==> s[k] != c,
        i > 0 ==> s[i - 1] == c,
    ensures
        last_index_of(s, c) == if i > 0 {
            Some((i - 1) as nat)
        } else {
            None::<nat>
        },
    decreases s.len() - i,
{
    if s.len() > i {
        lemma_last_index_of(s.drop_last(), c, i);
    }
}

/// The text of a target: `NODE_ID:ENDPOINT`.
pub open spec fn target_text(node_id: Seq<char>, endpoint: u16) -> Seq<char> {
    node_id + seq![':'] + decimal(endpoint as nat)
}

/// The node identifier and endpoint that `s` names, when it is a valid
/// target: split at the last `:`, a checked node identifier before it and a
/// 16-bit endpoint after it.
pub open spec fn target_parts(s: Seq<char>) -> Option<(Seq<char>, u16)> {
    match last_index_of(s, ':') {
        None => None,
        Some(i) => match parses_as_u16(s.skip(i + 1 as int)) {
            None => None,
            Some(e) => if node_id_check(s.take(i as int)) is Ok {
                Some((s.take(i as int), e))
            } else {
                None
            },
        },
    }
}

/// A valid node identifier holds no `:`.
proof fn lemma_node_id_has_no_colon(node_id: Seq<char>)
    requires
        node_id_check(node_id) is Ok,
    ensures
        forall|k: int| 0 <= k < node_id.len() ==> #[trigger] node_id[k] != ':',
{
    lemma_trimmed_frame(node_id);
    let v = trimmed(node_id);
    let lw = crate::text::leading_white(node_id);
    assert(!is_white_space(':'));
    assert forall|k: int| 0 <= k < node_id.len() implies #[trigger] node_id[k] != ':' by {
        if lw <= k < node_id.len() - crate::text::trailing_white(node_id) {
            assert(node_id[k] == v[k - lw]);
            match strip_hex_prefix(v) {
                Some(hex) => {
                    if k - lw >= 2 {
                        assert(v[k - lw] == hex[k - lw - 2]);
                        assert(is_hex_digit(hex[k - lw - 2]));
                    }
                },
                None => {
                    assert(is_digit(v[k - lw]));
                },
            }
        }
    }
}

/// The text of a target with a valid node identifier names that target
/// again.
pub proof fn lemma_target_text_reads_back(node_id: Seq<char>, endpoint: u16)
    requires
        node_id_check(node_id) is Ok,
    ensures
        target_parts(target_text(node_id, endpoint)) == Some((node_id, endpoint)),
{
    let digits = decimal(endpoint as nat);
    let s = target_text(node_id, endpoint);
    let i = node_id.len();
    lemma_decimal_reads_back(endpoint as nat);
    lemma_node_id_has_no_colon(node_id);
    assert forall|k: int| i + 1 <= k < s.len() implies s[k] != ':' by {
        assert(s[k] == digits[k - i - 1]);
        assert(is_digit(digits[k - i - 1]));
    }
    assert(s[i as int] == ':');
    lemma_last_index_of(s, ':', i + 1);
    assert(s.take(i as int) =~= node_id);
    assert(s.skip(i + 1 as int) =~= digits);
    assert(is_digit(digits[0]));
    assert(unsigned_body(digits) == digits);
}

/// `r` is what reading `value` as a target gives: split at the last `:`, a
/// missing separator, an endpoint that is not a 16-bit number or an invalid
/// node identifier is refused with that error; otherwise the target of the
/// node identifier and endpoint.
pub open spec fn target_reading(value: Seq<char>, r: Result<MatterTarget, MatterError>) -> bool {
    &&& r is Ok <==> target_parts(value) is Some
    &&& r matches Ok(t) ==> target_parts(value) == Some((t.node_id@, t.endpoint))
    &&& last_index_of(value, ':') is None ==> r == Err::<MatterTarget, MatterError>(
        MatterError::MissingEndpointSeparator,
    )
    &&& last_index_of(value, ':') matches Some(i) ==> {
        let node = value.take(i as int);
        let endpoint = value.skip(i + 1 as int);
        match parses_as_u16(endpoint) {
            None => r matches Err(MatterError::InvalidEndpoint(t)) && t@ == endpoint,
            Some(e) => match node_id_check(node) {
                Ok(_) => r matches Ok(t) && t.node_id@ == node && t.endpoint == e,
                Err(k) => r == Err::<MatterTarget, MatterError>(MatterError::NodeId(k)),
            },
        }
    }
}

/// A device endpoint: a node identifier and an endpoint number.
#[derive(Clone, Debug, PartialEq, Eq)]
pub struct MatterTarget {
    pub node_id: String,
    pub endpoint: u16,
}

impl MatterTarget {
    /// A target, once the node identifier is checked.
    pub fn new(node_id: String, endpoint: u16) -> (r: Result<MatterTarget, MatterError>)
        ensures
            node_id_check(node_id@) is Ok ==> (r matches Ok(t) && t.node_id@ == node_id@
                && t.endpoint == endpoint),
            node_id_check(node_id@) matches Err(e) ==> r == Err::<MatterTarget, MatterError>(
                MatterError::NodeId(e),
            ),
    {
        match validate_node_id(node_id.as_str()) {
            Ok(()) => Ok(MatterTarget { node_id, endpoint }),
            Err(e) => Err(MatterError::NodeId(e)),
        }
    }

    /// Read a target written `NODE_ID:ENDPOINT`, split at the last `:`.
    pub fn parse(value: &str) -> (r: Result<MatterTarget, MatterError>)
        ensures
            target_reading(value@, r),
            r is Ok <==> target_parts(value@) is Some,
            r matches Ok(t) ==> target_parts(value@) == Some((t.node_id@, t.endpoint)),
            last_index_of(value@, ':') is None ==> r == Err::<MatterTarget, MatterError>(
                MatterError::MissingEndpointSeparator,
            ),
            last_index_of(value@, ':') matches Some(i) ==> {
                let node = value@.take(i as int);
                let endpoint = value@.skip(i + 1 as int);
                match parses_as_u16(endpoint) {
                    None => r matches Err(MatterError::InvalidEndpoint(t)) && t@ == endpoint,
                    Some(e) => match node_id_check(node) {
                        Ok(_) => r matches Ok(t) && t.node_id@ == node && t.endpoint == e,
                        Err(k) => r == Err::<MatterTarget, MatterError>(MatterError::NodeId(k)),
                    },
                }
            },
    {
        let cs = chars_of(value);
        let n = cs.len();
        let mut i = n;
        while i > 0 && cs[i - 1] != ':'
            invariant
                i <= n == cs@.len(),
                forall|k: int| i <= k < n ==> cs@[k] != ':',
            decreases i,
        {
            i = i - 1;
        }
        proof {
            lemma_last_index_of(cs@, ':', i as nat);
        }
        if i == 0 {
            return Err(MatterError::MissingEndpointSeparator);
        }
        let node = slice_subrange(cs.as_slice(), 0, i - 1);
        let endpoint = slice_subrange(cs.as_slice(), i, n);
        proof {
            assert(node@ =~= cs@.take(i - 1));
            assert(endpoint@ =~= cs@.skip(i as int));
        }
        match parse_u16(endpoint) {
            None => Err(MatterError::InvalidEndpoint(string_from(endpoint))),
            Some(e) => Self::new(string_from(node), e),
        }
    }

    /// The target written `NODE_ID:ENDPOINT`.
    pub fn to_text(&self) -> (s: String)
        ensures
            s@ == target_text(self.node_id@, self.endpoint),
    {
        let mut out = chars_of(self.node_id.as_str());
        out.push(':');
        push_decimal(&mut out, self.endpoint as u64);
        string_from(out.as_slice())
    }
}

/// Reading the text of a target with a valid node identifier (as `to_text`
/// writes it) gives that target back: `parse` and `from_str` return `Ok`
/// with the same node identifier and endpoint.
pub proof fn lemma_target_round_trip(t: MatterTarget, r: Result<MatterTarget, MatterError>)
    requires
        node_id_check(t.node_id@) is Ok,
        target_reading(target_text(t.node_id@, t.endpoint), r),
    ensures
        r matches Ok(u) && u.node_id@ == t.node_id@ && u.endpoint == t.endpoint,
{
    lemma_target_text_reads_back(t.node_id@, t.endpoint);
}

impl core::str::FromStr for MatterTarget {
    type Err = MatterError;

    /// Read a target written `NODE_ID:ENDPOINT`, as `MatterTarget::parse` does.
    fn from_str(value: &str) -> (r: Result<MatterTarget, MatterError>)
        ensures
            target_reading(value@, r),
    {
        MatterTarget::parse(value)
    }
}

/// What a chip-tool run printed, and how it exited.
#[derive(Clone, Debug, PartialEq, Eq)]
pub struct ChipToolOutput {
    pub status: i32,
    pub stdout: String,
    pub stderr: String,
}

/// The trimmed standard output and standard error, joined by a newline when
/// both have text.
pub open spec fn combined_of(stdout: Seq<char>, stderr: Seq<char>) -> Seq<char> {
    let out = trimmed(stdout);
    let err = trimmed(stderr);
    if out.len() > 0 && err.len() > 0 {
        out + seq!['\n'] + err
    } else if out.len() > 0 {
        out
    } else {
        err
    }
}

/// What chip-tool prints when a command times out.
pub open spec fn timeout_marker() -> Seq<char> {
    "CHIP Error 0x00000032: Timeout"@
}

impl ChipToolOutput {
    /// The trimmed output and error text, joined by a newline when both
    /// have text.
    pub fn combined(&self) -> (s: String)
        ensures
            s@ == combined_of(self.stdout@, self.stderr@),
    {
        let out_chars = chars_of(self.stdout.as_str());
        let err_chars = chars_of(self.stderr.as_str());
        let mut out = trim(out_chars.as_slice());
        let err = trim(err_chars.as_slice());
        if out.len() > 0 && err.len() > 0 {
            out.push('\n');
            crate::text::push_chars(&mut out, err.as_slice());
            string_from(out.as_slice())
        } else if out.len() > 0 {
            string_from(out.as_slice())
        } else {
            string_from(err.as_slice())
        }
    }

    /// Whether chip-tool reported a timeout.
    pub fn is_timeout(&self) -> (b: bool)
        ensures
            b == occurs_in(timeout_marker(), combined_of(self.stdout@, self.stderr@)),
    {
        let text = self.combined();
        let hay = chars_of(text.as_str());
        let needle = chars_of("CHIP Error 0x00000032: Timeout");
        contains_chars(hay.as_slice(), needle.as_slice())
    }
}

/// The milliseconds of a span in tenths of a second, rounded up and capped
/// at `u16::MAX`.
pub open spec fn deciseconds_of(d: Duration) -> nat {
    let ds = (millis_of(d) + 99) / 100;
    if ds > u16::MAX {
        u16::MAX as nat
    } else {
        ds
    }
}

/// A span in tenths of a second, rounded up and capped at `u16::MAX`.
pub fn duration_to_deciseconds(duration: Duration) -> (ds: u16)
    ensures
        ds == deciseconds_of(duration),
{
    let ms = duration.as_millis();
    let ds = ms / 100 + if ms % 100 == 0 {
        0
    } else {
        1
    };
    if ds > 65535 {
        65535
    } else {
        ds as u16
    }
}

/// A light state in Matter's ranges.
#[derive(Clone, Copy, Debug, PartialEq, Eq, Structural)]
pub struct MatterColorLevel {
    pub level: u8,
    pub hue: u8,
    pub saturation: u8,
    pub transition_ds: u16,
}

impl MatterColorLevel {
    /// A Matter light state from levels already scaled to 0..=254 and a
    /// transition time.
    pub fn from_scaled(level: u8, hue: u8, saturation: u8, transition: Duration) -> (c:
        MatterColorLevel)
        ensures
            c.level == level,
            c.hue == hue,
            c.saturation == saturation,
            c.transition_ds == deciseconds_of(transition),
    {
        MatterColorLevel {
            level,
            hue,
            saturation,
            transition_ds: duration_to_deciseconds(transition),
        }
    }
}

/// The characters of each string of a list.
pub open spec fn strings_view(v: Seq<String>) -> Seq<Seq<char>> {
    v.map_values(|s: String| s@)
}

/// A handle on the `chip-tool` program and its fabric settings.
#[derive(Clone, Debug)]
pub struct ChipTool {
    binary: String,
    commissioner_name: Option<String>,
    storage_directory: Option<String>,
}

/// `"--commissioner-name"`, `"--storage-directory"` and their values, for the
/// settings that are given.
pub open spec fn setting_flags(
    commissioner_name: Option<Seq<char>>,
    storage_directory: Option<Seq<char>>,
) -> Seq<Seq<char>> {
    let a = match commissioner_name {
        Some(n) => seq!["--commissioner-name"@, n],
        None => Seq::empty(),
    };
    let b = match storage_directory {
        Some(d) => seq!["--storage-directory"@, d],
        None => Seq::empty(),
    };
    a + b
}

/// The arguments that switch a light on or off.
pub open spec fn onoff_args(on: bool, t: MatterTarget) -> Seq<Seq<char>> {
    seq!["onoff"@, if on { "on"@ } else { "off"@ }, t.node_id@, decimal(t.endpoint as nat)]
}

/// The arguments that move a light to a level.
pub open spec fn level_args(t: MatterTarget, level: u8, transition_ds: u16) -> Seq<Seq<char>> {
    seq![
        "levelcontrol"@,
        "move-to-level"@,
        decimal(level as nat),
        decimal(transition_ds as nat),
        "0"@,
        "0"@,
        t.node_id@,
        decimal(t.endpoint as nat),
    ]
}

/// The arguments that move a light to a hue and saturation.
pub open spec fn hue_saturation_args(
    t: MatterTarget,
    hue: u8,
    saturation: u8,
    transition_ds: u16,
) -> Seq<Seq<char>> {
    seq![
        "colorcontrol"@,
        "move-to-hue-and-saturation"@,
        decimal(hue as nat),
        decimal(saturation as nat),
        decimal(transition_ds as nat),
        "0"@,
        "0"@,
        t.node_id@,
        decimal(t.endpoint as nat),
    ]
}

fn string_of(s: &str) -> (r: String)
    ensures
        r@ == s@,
{
    s.to_owned()
}

fn decimal_string(n: u64) -> (r: String)
    ensures
        r@ == decimal(n as nat),
{
    let mut out: Vec<char> = Vec::new();
    push_decimal(&mut out, n);
    proof {
        assert(out@ =~= decimal(n as nat));
    }
    string_from(out.as_slice())
}

impl ChipTool {
    /// The program's path.
    pub closed spec fn binary_chars(self) -> Seq<char> {
        self.binary@
    }

    /// The commissioner (fabric) name, if set.
    pub closed spec fn commissioner(self) -> Option<Seq<char>> {
        crate::track::opt_chars(self.commissioner_name)
    }

    /// The state directory, if set.
    pub closed spec fn storage(self) -> Option<Seq<char>> {
        crate::track::opt_chars(self.storage_directory)
    }

    /// The program at `binary`, with no fabric settings.
    pub fn new(binary: String) -> (c: ChipTool)
        ensures
            c.binary_chars() == binary@,
            c.commissioner() is None,
            c.storage() is None,
    {
        ChipTool { binary, commissioner_name: None, storage_directory: None }
    }

    /// The same program under the commissioner name `name`.
    pub fn with_commissioner_name(self, name: String) -> (c: ChipTool)
        ensures
            c.binary_chars() == self.binary_chars(),
            c.commissioner() == Some(name@),
            c.storage() == self.storage(),
    {
        ChipTool { commissioner_name: Some(name), ..self }
    }

    /// The same program keeping its state in `directory`.
    pub fn with_storage_directory(self, directory: String) -> (c: ChipTool)
        ensures
            c.binary_chars() == self.binary_chars(),
            c.commissioner() == self.commissioner(),
            c.storage() == Some(directory@),
    {
        ChipTool { storage_directory: Some(directory), ..self }
    }

    /// The program's path.
    pub fn binary(&self) -> (b: &str)
        ensures
            b@ == self.binary_chars(),
    {
        self.binary.as_str()
    }

    /// The state directory, if set.
    pub fn storage_directory(&self) -> (d: Option<&str>)
        ensures
            match d {
                Some(s) => self.storage() == Some(s@),
                None => self.storage() is None,
            },
    {
        match &self.storage_directory {
            Some(s) => Some(s.as_str()),
            None => None,
        }
    }

    /// The full argument list for a command: its arguments, then the
    /// commissioner name and state directory flags that are set.
    pub fn invocation(&self, args: Vec<String>) -> (v: Vec<String>)
        ensures
            strings_view(v@) == strings_view(args@) + setting_flags(
                self.commissioner(),
                self.storage(),
            ),
    {
        let mut v = args;
        let ghost start = strings_view(v@);
        match &self.commissioner_name {
            Some(name) => {
                v.push(string_of("--commissioner-name"));
                v.push(name.clone());
            },
            None => {},
        }
        let ghost mid = strings_view(v@);
        match &self.storage_directory {
            Some(dir) => {
                v.push(string_of("--storage-directory"));
                v.push(dir.clone());
            },
            None => {},
        }
        proof {
            assert(strings_view(v@) =~= start + setting_flags(self.commissioner(), self.storage()));
        }
        v
    }

    /// The command that lists commissionable devices.
    pub fn discover_args() -> (v: Vec<String>)
        ensures
            strings_view(v@) == seq!["discover"@, "commissionables"@],
    {
        let v = vec![string_of("discover"), string_of("commissionables")];
        proof {
            assert(strings_view(v@) =~= seq!["discover"@, "commissionables"@]);
        }
        v
    }

    /// The command that commissions `node_id` with a setup payload; the node
    /// identifier must be numeric and the payload not blank.
    pub fn commission_args(node_id: &str, setup_code: &str) -> (r: Result<Vec<String>, MatterError>)
        ensures
            node_id_check(node_id@) matches Err(e) ==> r == Err::<Vec<String>, MatterError>(
                MatterError::NodeId(e),
            ),
            node_id_check(node_id@) is Ok && trimmed(setup_code@).len() == 0 ==> r == Err::<
                Vec<String>,
                MatterError,
            >(MatterError::EmptySetupCode),
            node_id_check(node_id@) is Ok && trimmed(setup_code@).len() > 0 ==> (r matches Ok(v)
                && strings_view(v@) == seq!["pairing"@, "code"@, node_id@, setup_code@]),
    {
        match validate_node_id(node_id) {
            Err(e) => {
                return Err(MatterError::NodeId(e));
            },
            Ok(()) => {},
        }
        let cs = chars_of(setup_code);
        let t = trim(cs.as_slice());
        if t.len() == 0 {
            return Err(MatterError::EmptySetupCode);
        }
        let v = vec![string_of("pairing"), string_of("code"), string_of(node_id), string_of(setup_code)];
        proof {
            assert(strings_view(v@) =~= seq!["pairing"@, "code"@, node_id@, setup_code@]);
        }
        Ok(v)
    }

    /// The command that switches `target` on (`on`) or off.
    pub fn onoff_args(target: &MatterTarget, on: bool) -> (v: Vec<String>)
        ensures
            strings_view(v@) == onoff_args(on, *target),
    {
        let v = vec![
            string_of("onoff"),
            if on {
                string_of("on")
            } else {
                string_of("off")
            },
            target.node_id.clone(),
            decimal_string(target.endpoint as u64),
        ];
        proof {
            assert(strings_view(v@) =~= onoff_args(on, *target));
        }
        v
    }

    /// The command that moves `target` to `level` over `transition_ds` tenths
    /// of a second.
    pub fn set_level_args(target: &MatterTarget, level: u8, transition_ds: u16) -> (v: Vec<String>)
        ensures
            strings_view(v@) == level_args(*target, level, transition_ds),
    {
        let v = vec![
            string_of("levelcontrol"),
            string_of("move-to-level"),
            decimal_string(level as u64),
            decimal_string(transition_ds as u64),
            string_of("0"),
            string_of("0"),
            target.node_id.clone(),
            decimal_string(target.endpoint as u64),
        ];
        proof {
            assert(strings_view(v@) =~= level_args(*target, level, transition_ds));
        }
        v
    }

    /// The command that moves `target` to a hue and saturation over
    /// `transition_ds` tenths of a second.
    pub fn set_hue_saturation_args(
        target: &MatterTarget,
        hue: u8,
        saturation: u8,
        transition_ds: u16,
    ) -> (v: Vec<String>)
        ensures
            strings_view(v@) == hue_saturation_args(*target, hue, saturation, transition_ds),
    {
        let v = vec![
            string_of("colorcontrol"),
            string_of("move-to-hue-and-saturation"),
            decimal_string(hue as u64),
            decimal_string(saturation as u64),
            decimal_string(transition_ds as u64),
            string_of("0"),
            string_of("0"),
            target.node_id.clone(),
            decimal_string(target.endpoint as u64),
        ];
        proof {
            assert(strings_view(v@) =~= hue_saturation_args(*target, hue, saturation, transition_ds));
        }
        v
    }

    /// The commands that put a light into `state`, in order: off alone at
    /// level zero, otherwise on, then level, then hue and saturation.
    pub fn light_state_plan(target: &MatterTarget, state: MatterColorLevel) -> (plan: Vec<
        Vec<String>,
    >)
        ensures
            state.level == 0 ==> plan@.len() == 1 && strings_view(plan@[0]@) == onoff_args(
                false,
                *target,
            ),
            state.level != 0 ==> {
                &&& plan@.len() == 3
                &&& strings_view(plan@[0]@) == onoff_args(true, *target)
                &&& strings_view(plan@[1]@) == level_args(
                    *target,
                    state.level,
                    state.transition_ds,
                )
                &&& strings_view(plan@[2]@) == hue_saturation_args(
                    *target,
                    state.hue,
                    state.saturation,
                    state.transition_ds,
                )
            },
    {
        let mut plan: Vec<Vec<String>> = Vec::new();
        if state.level == 0 {
            plan.push(Self::onoff_args(target, false));
            return plan;
        }
        plan.push(Self::onoff_args(target, true));
        plan.push(Self::set_level_args(target, state.level, state.transition_ds));
        plan.push(
            Self::set_hue_saturation_args(target, state.hue, state.saturation, state.transition_ds),
        );
        plan
    }
}

impl Default for ChipTool {
    /// `chip-tool` found on the search path, with no fabric settings.
    fn default() -> (c: ChipTool)
        ensures
            c.binary_chars() == "chip-tool"@,
            c.commissioner() is None,
            c.storage() is None,
    {
        ChipTool::new(string_of("chip-tool"))
    }
}

/// Accept a chip-tool run only when it exited with status zero; otherwise
/// fail with its status and combined output.
pub fn checked_output(output: ChipToolOutput) -> (r: Result<ChipToolOutput, MatterError>)
    ensures
        output.status == 0 ==> r == Ok::<ChipToolOutput, MatterError>(output),
        output.status != 0 ==> (r matches Err(MatterError::ChipToolFailed { status, detail })
            && status == output.status && detail@ == combined_of(output.stdout@, output.stderr@)),
{
    if output.status != 0 {
        let detail = output.combined();
        return Err(MatterError::ChipToolFailed { status: output.status, detail });
    }
    Ok(output)
}

/// Accept a discovery run that exited with status zero or timed out (no
/// device answered in time); otherwise fail as `checked_output` does.
pub fn discovery_outcome(output: ChipToolOutput) -> (r: Result<ChipToolOutput, MatterError>)
    ensures
        output.status == 0 || occurs_in(timeout_marker(), combined_of(output.stdout@, output.stderr@))
            ==> r == Ok::<ChipToolOutput, MatterError>(output),
        !(output.status == 0 || occurs_in(
            timeout_marker(),
            combined_of(output.stdout@, output.stderr@),
        )) ==> (r matches Err(MatterError::ChipToolFailed { status, detail }) && status
            == output.status && detail@ == combined_of(output.stdout@, output.stderr@)),
{
    if output.status == 0 || output.is_timeout() {
        return Ok(output);
    }
    checked_output(output)
}

} // verus!

verus! {

/// The text of a Matter failure.
pub open spec fn matter_message(e: MatterError) -> Seq<char> {
    match e {
        MatterError::NodeId(NodeIdError::Empty) => "Matter node ID cannot be empty"@,
        MatterError::NodeId(NodeIdError::NotNumeric) =>
            "Matter node ID must be decimal or 0x-prefixed hexadecimal"@,
        MatterError::MissingEndpointSeparator =>
            "Matter target must be NODE_ID:ENDPOINT, for example 0x1234:1"@,
        MatterError::InvalidEndpoint(t) => "invalid Matter endpoint "@
            + crate::text::debug_quoted_of(t@),
        MatterError::EmptySetupCode => "Matter setup code cannot be empty"@,
        MatterError::ChipToolFailed { status, detail } => if detail@.len() == 0 {
            "chip-tool exited with status "@ + crate::text::signed_decimal(status as int)
        } else {
            "chip-tool exited with status "@ + crate::text::signed_decimal(status as int)
                + ": "@ + detail@
        },
    }
}

impl MatterError {
    /// The text of the failure.
    pub fn message(&self) -> (s: String)
        ensures
            s@ == matter_message(*self),
    {
        let mut out: Vec<char> = Vec::new();
        match self {
            MatterError::NodeId(NodeIdError::Empty) => {
                push_str(&mut out, "Matter node ID cannot be empty");
            },
            MatterError::NodeId(NodeIdError::NotNumeric) => {
                push_str(&mut out, "Matter node ID must be decimal or 0x-prefixed hexadecimal");
            },
            MatterError::MissingEndpointSeparator => {
                push_str(&mut out, "Matter target must be NODE_ID:ENDPOINT, for example 0x1234:1");
            },
            MatterError::InvalidEndpoint(t) => {
                push_str(&mut out, "invalid Matter endpoint ");
                let q = crate::text::debug_quoted(t.as_str());
                push_str(&mut out, q.as_str());
            },
            MatterError::EmptySetupCode => {
                push_str(&mut out, "Matter setup code cannot be empty");
            },
            MatterError::ChipToolFailed { status, detail } => {
                push_str(&mut out, "chip-tool exited with status ");
                crate::text::push_signed_decimal(&mut out, *status);
                let d = chars_of(detail.as_str());
                if d.len() > 0 {
                    push_str(&mut out, ": ");
                    push_str(&mut out, detail.as_str());
                }
            },
        }
        proof {
            assert(out@ =~= matter_message(*self));
        }
        string_from(out.as_slice())
    }
}

} // verus!
