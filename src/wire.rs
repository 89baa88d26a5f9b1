use vstd::prelude::*;

use crate::table::Table;
use crate::text::{
    lemma_folds_to_self,
    dec_text, decimal, digit_run, fold_eq, folds_to, lemma_dec_text, lemma_run_of_rendering,
    read_digits, same_text,
};
use vstd::string::*;

verus! {

/// A value type that travels as a fixed token.
///
/// Encoding gives the lower-case token; decoding reads ASCII letters without
/// case and refuses anything outside the accepted set.
pub trait Stringify: Sized {
    /// The token that encodes this value.
    spec fn spec_token(&self) -> Seq<char>;

    /// The value a token decodes to, if it is accepted.
    spec fn spec_decode(s: Seq<char>) -> Option<Self>;

    fn to_str(&self) -> (r: &'static str)
        ensures
            r@ == self.spec_token(),
    ;

    fn from_str(val: &str) -> (r: Option<Self>)
        ensures
            r == Self::spec_decode(val@),
    ;
}

/// An action applied to containers.
#[derive(Clone, Copy, Debug, PartialEq, Eq, Structural)]
pub enum BlockadeCommand {
    Start,
    Stop,
    Restart,
    Kill,
}

impl Stringify for BlockadeCommand {
    open spec fn spec_token(&self) -> Seq<char> {
        match self {
            BlockadeCommand::Start => "start"@,
            BlockadeCommand::Stop => "stop"@,
            BlockadeCommand::Restart => "restart"@,
            BlockadeCommand::Kill => "kill"@,
        }
    }

    open spec fn spec_decode(s: Seq<char>) -> Option<Self> {
        if folds_to(s, "start"@) {
            Some(BlockadeCommand::Start)
        } else if folds_to(s, "stop"@) {
            Some(BlockadeCommand::Stop)
        } else if folds_to(s, "restart"@) {
            Some(BlockadeCommand::Restart)
        } else if folds_to(s, "kill"@) {
            Some(BlockadeCommand::Kill)
        } else {
            None
        }
    }

    fn to_str(&self) -> (r: &'static str) {
        match self {
            BlockadeCommand::Start => "start",
            BlockadeCommand::Stop => "stop",
            BlockadeCommand::Restart => "restart",
            BlockadeCommand::Kill => "kill",
        }
    }

    fn from_str(val: &str) -> (r: Option<Self>) {
        if fold_eq(val, "start") {
            Some(BlockadeCommand::Start)
        } else if fold_eq(val, "stop") {
            Some(BlockadeCommand::Stop)
        } else if fold_eq(val, "restart") {
            Some(BlockadeCommand::Restart)
        } else if fold_eq(val, "kill") {
            Some(BlockadeCommand::Kill)
        } else {
            None
        }
    }
}

/// The link quality profile of a container.
#[derive(Clone, Copy, Debug, PartialEq, Eq, Structural)]
pub enum BlockadeNetStatus {
    Fast,
    Slow,
    Duplicate,
    Flaky,
    Unknown,
}

impl Stringify for BlockadeNetStatus {
    open spec fn spec_token(&self) -> Seq<char> {
        match self {
            BlockadeNetStatus::Fast => "fast"@,
            BlockadeNetStatus::Slow => "slow"@,
            BlockadeNetStatus::Duplicate => "duplicate"@,
            BlockadeNetStatus::Flaky => "flaky"@,
            BlockadeNetStatus::Unknown => "unknown"@,
        }
    }

    /// "normal" is an older name of the fast profile.
    open spec fn spec_decode(s: Seq<char>) -> Option<Self> {
        if folds_to(s, "fast"@) || folds_to(s, "normal"@) {
            Some(BlockadeNetStatus::Fast)
        } else if folds_to(s, "slow"@) {
            Some(BlockadeNetStatus::Slow)
        } else if folds_to(s, "duplicate"@) {
            Some(BlockadeNetStatus::Duplicate)
        } else if folds_to(s, "flaky"@) {
            Some(BlockadeNetStatus::Flaky)
        } else if folds_to(s, "unknown"@) {
            Some(BlockadeNetStatus::Unknown)
        } else {
            None
        }
    }

    fn to_str(&self) -> (r: &'static str) {
        match self {
            BlockadeNetStatus::Fast => "fast",
            BlockadeNetStatus::Slow => "slow",
            BlockadeNetStatus::Duplicate => "duplicate",
            BlockadeNetStatus::Flaky => "flaky",
            BlockadeNetStatus::Unknown => "unknown",
        }
    }

    fn from_str(val: &str) -> (r: Option<Self>) {
        if fold_eq(val, "fast") || fold_eq(val, "normal") {
            Some(BlockadeNetStatus::Fast)
        } else if fold_eq(val, "slow") {
            Some(BlockadeNetStatus::Slow)
        } else if fold_eq(val, "duplicate") {
            Some(BlockadeNetStatus::Duplicate)
        } else if fold_eq(val, "flaky") {
            Some(BlockadeNetStatus::Flaky)
        } else if fold_eq(val, "unknown") {
            Some(BlockadeNetStatus::Unknown)
        } else {
            None
        }
    }
}

/// Whether a container is running.
#[derive(Clone, Copy, Debug, PartialEq, Eq, Structural)]
pub enum BlockadeContainerStatus {
    Up,
    Down,
    Missing,
}

impl Stringify for BlockadeContainerStatus {
    open spec fn spec_token(&self) -> Seq<char> {
        match self {
            BlockadeContainerStatus::Up => "up"@,
            BlockadeContainerStatus::Down => "down"@,
            BlockadeContainerStatus::Missing => "missing"@,
        }
    }

    open spec fn spec_decode(s: Seq<char>) -> Option<Self> {
        if folds_to(s, "up"@) {
            Some(BlockadeContainerStatus::Up)
        } else if folds_to(s, "down"@) {
            Some(BlockadeContainerStatus::Down)
        } else if folds_to(s, "missing"@) {
            Some(BlockadeContainerStatus::Missing)
        } else {
            None
        }
    }

    fn to_str(&self) -> (r: &'static str) {
        match self {
            BlockadeContainerStatus::Up => "up",
            BlockadeContainerStatus::Down => "down",
            BlockadeContainerStatus::Missing => "missing",
        }
    }

    fn from_str(val: &str) -> (r: Option<Self>) {
        if fold_eq(val, "up") {
            Some(BlockadeContainerStatus::Up)
        } else if fold_eq(val, "down") {
            Some(BlockadeContainerStatus::Down)
        } else if fold_eq(val, "missing") {
            Some(BlockadeContainerStatus::Missing)
        } else {
            None
        }
    }
}

/// Decoding a command accepts exactly the tokens start, stop, restart and
/// kill, read without ASCII case, and gives back what encoding wrote.
pub proof fn law_command_tokens(s: Seq<char>, x: BlockadeCommand)
    ensures
        BlockadeCommand::spec_decode(s) is Some <==> exists|t: Seq<char>|
            #![trigger folds_to(s, t)]
            set!["start"@, "stop"@, "restart"@, "kill"@].contains(t) && folds_to(s, t),
        BlockadeCommand::spec_decode(x.spec_token()) == Some(x),
{
    reveal_strlit("start");
    reveal_strlit("stop");
    reveal_strlit("restart");
    reveal_strlit("kill");
    if BlockadeCommand::spec_decode(s) is Some {
        if folds_to(s, "start"@) {
            assert(set!["start"@, "stop"@, "restart"@, "kill"@].contains("start"@));
        } else if folds_to(s, "stop"@) {
            assert(set!["start"@, "stop"@, "restart"@, "kill"@].contains("stop"@));
        } else if folds_to(s, "restart"@) {
            assert(set!["start"@, "stop"@, "restart"@, "kill"@].contains("restart"@));
        } else {
            assert(set!["start"@, "stop"@, "restart"@, "kill"@].contains("kill"@));
        }
    }
    lemma_folds_to_self(x.spec_token());
    match x {
        BlockadeCommand::Start => {},
        BlockadeCommand::Stop => { assert(!folds_to("stop"@, "start"@)); },
        BlockadeCommand::Restart => {
            assert(!folds_to("restart"@, "start"@));
            assert(!folds_to("restart"@, "stop"@));
        },
        BlockadeCommand::Kill => {
            assert("kill"@[0] != "start"@[0]);
            assert(!folds_to("kill"@, "start"@));
            assert(!crate::text::char_folds_to("kill"@[0], "stop"@[0]));
            assert(!folds_to("kill"@, "stop"@));
            assert(!folds_to("kill"@, "restart"@));
        },
    }
}

/// Decoding a network status accepts exactly fast, normal (an older name of
/// fast), slow, duplicate, flaky and unknown, read without ASCII case, so the
/// upper-case forms such as NORMAL and FLAKY too, and gives back what encoding
/// wrote.
pub proof fn law_net_status_tokens(s: Seq<char>, x: BlockadeNetStatus)
    ensures
        BlockadeNetStatus::spec_decode(s) is Some <==> exists|t: Seq<char>|
            #![trigger folds_to(s, t)]
            set!["fast"@, "normal"@, "slow"@, "duplicate"@, "flaky"@, "unknown"@].contains(t) && folds_to(s, t),
        BlockadeNetStatus::spec_decode(x.spec_token()) == Some(x),
{
    reveal_strlit("fast");
    reveal_strlit("normal");
    reveal_strlit("slow");
    reveal_strlit("duplicate");
    reveal_strlit("flaky");
    reveal_strlit("unknown");
    let tokens = set!["fast"@, "normal"@, "slow"@, "duplicate"@, "flaky"@, "unknown"@];
    if BlockadeNetStatus::spec_decode(s) is Some {
        if folds_to(s, "fast"@) {
            assert(tokens.contains("fast"@));
        } else if folds_to(s, "normal"@) {
            assert(tokens.contains("normal"@));
        } else if folds_to(s, "slow"@) {
            assert(tokens.contains("slow"@));
        } else if folds_to(s, "duplicate"@) {
            assert(tokens.contains("duplicate"@));
        } else if folds_to(s, "flaky"@) {
            assert(tokens.contains("flaky"@));
        } else {
            assert(tokens.contains("unknown"@));
        }
    }
    lemma_folds_to_self(x.spec_token());
    match x {
        BlockadeNetStatus::Fast => {},
        BlockadeNetStatus::Slow => {
            assert(!crate::text::char_folds_to("slow"@[0], "fast"@[0]));
            assert(!folds_to("slow"@, "fast"@));
            assert(!folds_to("slow"@, "normal"@));
        },
        BlockadeNetStatus::Duplicate => {
            assert(!folds_to("duplicate"@, "fast"@));
            assert(!folds_to("duplicate"@, "normal"@));
            assert(!folds_to("duplicate"@, "slow"@));
        },
        BlockadeNetStatus::Flaky => {
            assert("flaky"@[0] != "fast"@[0] || "flaky"@[1] != "fast"@[1]);
            assert(!folds_to("flaky"@, "fast"@));
            assert(!folds_to("flaky"@, "normal"@));
            assert(!folds_to("flaky"@, "slow"@));
            assert(!folds_to("flaky"@, "duplicate"@));
        },
        BlockadeNetStatus::Unknown => {
            assert(!folds_to("unknown"@, "fast"@));
            assert("unknown"@[0] != "normal"@[0]);
            assert(!folds_to("unknown"@, "normal"@));
            assert(!folds_to("unknown"@, "slow"@));
            assert(!folds_to("unknown"@, "duplicate"@));
            assert(!folds_to("unknown"@, "flaky"@));
        },
    }
}

/// Decoding a container status accepts exactly up, down and missing, read
/// without ASCII case, and gives back what encoding wrote.
pub proof fn law_container_status_tokens(s: Seq<char>, x: BlockadeContainerStatus)
    ensures
        BlockadeContainerStatus::spec_decode(s) is Some <==> exists|t: Seq<char>|
            #![trigger folds_to(s, t)]
            set!["up"@, "down"@, "missing"@].contains(t) && folds_to(s, t),
        BlockadeContainerStatus::spec_decode(x.spec_token()) == Some(x),
{
    reveal_strlit("up");
    reveal_strlit("down");
    reveal_strlit("missing");
    if BlockadeContainerStatus::spec_decode(s) is Some {
        if folds_to(s, "up"@) {
            assert(set!["up"@, "down"@, "missing"@].contains("up"@));
        } else if folds_to(s, "down"@) {
            assert(set!["up"@, "down"@, "missing"@].contains("down"@));
        } else {
            assert(set!["up"@, "down"@, "missing"@].contains("missing"@));
        }
    }
    lemma_folds_to_self(x.spec_token());
    match x {
        BlockadeContainerStatus::Up => {},
        BlockadeContainerStatus::Down => { assert(!folds_to("down"@, "up"@)); },
        BlockadeContainerStatus::Missing => {
            assert(!folds_to("missing"@, "up"@));
            assert(!folds_to("missing"@, "down"@));
        },
    }
}

/// An IPv4 address as its four octets, most significant first.
#[derive(Clone, Copy, Debug, PartialEq, Eq, Structural)]
pub struct Ipv4Address {
    pub a: u8,
    pub b: u8,
    pub c: u8,
    pub d: u8,
}

impl Ipv4Address {
    /// The address 0.0.0.0, which stands for an unknown address.
    pub fn unspecified() -> (r: Self)
        ensures
            r == Ipv4Address::zero(),
    {
        Ipv4Address { a: 0, b: 0, c: 0, d: 0 }
    }

    pub open spec fn zero() -> Self {
        Ipv4Address { a: 0, b: 0, c: 0, d: 0 }
    }

    /// The dotted decimal form, as in "10.0.0.2".
    pub open spec fn spec_text(&self) -> Seq<char> {
        dec_text(self.a as nat) + seq!['.'] + dec_text(self.b as nat) + seq!['.'] + dec_text(
            self.c as nat,
        ) + seq!['.'] + dec_text(self.d as nat)
    }

    /// The address whose dotted decimal form is `s`, if there is one.
    pub open spec fn spec_parse(s: Seq<char>) -> Option<Self> {
        if exists|a: Ipv4Address| a.spec_text() == s {
            Some(choose|a: Ipv4Address| a.spec_text() == s)
        } else {
            None
        }
    }

    /// The dotted decimal form of the address.
    pub fn to_text(&self) -> (r: String)
        ensures
            r@ == self.spec_text(),
    {
        proof { reveal_strlit("."); }
        let mut r = decimal(self.a as u64);
        r.append(".");
        r.append(decimal(self.b as u64).as_str());
        r.append(".");
        r.append(decimal(self.c as u64).as_str());
        r.append(".");
        r.append(decimal(self.d as u64).as_str());
        assert("."@ =~= seq!['.']);
        r
    }

    /// Where `s` is the form of `a`, the form of each octet stands at the
    /// offsets that the earlier octets give.
    proof fn lemma_text_layout(a: Ipv4Address, s: Seq<char>)
        requires
            a.spec_text() == s,
        ensures
            ({
                let l0 = dec_text(a.a as nat).len() as int;
                let l1 = dec_text(a.b as nat).len() as int;
                let l2 = dec_text(a.c as nat).len() as int;
                let l3 = dec_text(a.d as nat).len() as int;
                &&& s.len() == l0 + l1 + l2 + l3 + 3
                &&& s.subrange(0, l0) == dec_text(a.a as nat)
                &&& s[l0] == '.'
                &&& s.subrange(l0 + 1, l0 + 1 + l1) == dec_text(a.b as nat)
                &&& s[l0 + 1 + l1] == '.'
                &&& s.subrange(l0 + l1 + 2, l0 + l1 + 2 + l2) == dec_text(a.c as nat)
                &&& s[l0 + l1 + 2 + l2] == '.'
                &&& s.subrange(l0 + l1 + l2 + 3, l0 + l1 + l2 + 3 + l3) == dec_text(a.d as nat)
            }),
    {
        let l0 = dec_text(a.a as nat).len() as int;
        let l1 = dec_text(a.b as nat).len() as int;
        let l2 = dec_text(a.c as nat).len() as int;
        let l3 = dec_text(a.d as nat).len() as int;
        assert(s.subrange(0, l0) =~= dec_text(a.a as nat));
        assert(s.subrange(l0 + 1, l0 + 1 + l1) =~= dec_text(a.b as nat));
        assert(s.subrange(l0 + l1 + 2, l0 + l1 + 2 + l2) =~= dec_text(a.c as nat));
        assert(s.subrange(l0 + l1 + l2 + 3, l0 + l1 + l2 + 3 + l3) =~= dec_text(a.d as nat));
    }

    /// Reads an address in dotted decimal form; exactly the forms that
    /// `to_text` writes are accepted.
    pub fn parse(s: &str) -> (r: Option<Self>)
        ensures
            r == Self::spec_parse(s@),
    {
        let r = Self::parse_form(s);
        proof {
            if exists|a: Ipv4Address| a.spec_text() == s@ {
                let c = choose|a: Ipv4Address| a.spec_text() == s@;
                assert(r == Some(c));
            }
        }
        r
    }

    fn parse_form(s: &str) -> (r: Option<Self>)
        ensures
            match r {
                Some(a) => a.spec_text() == s@,
                None => true,
            },
            forall|a: Ipv4Address| a.spec_text() == s@ ==> r == Some(a),
    {
        let n = s.unicode_len();
        proof {
            assert forall|a: Ipv4Address| a.spec_text() == s@ implies dec_text(a.a as nat).len() < n by {
                Self::lemma_text_layout(a, s@);
            }
        }
        let (x0, e0) = match read_digits(s, n, 0) {
            Some(p) => p,
            None => {
                proof { Self::lemma_no_form(s@); }
                return None;
            },
        };
        proof {
            assert forall|a: Ipv4Address| a.spec_text() == s@ implies x0 == a.a && e0 == dec_text(a.a as nat).len() by {
                Self::lemma_text_layout(a, s@);
                lemma_run_of_rendering(s@, 0, a.a as nat, x0 as nat, e0 as int);
            }
        }
        if e0 >= n || s.get_char(e0) != '.' {
            return None;
        }
        let (x1, e1) = match read_digits(s, n, e0 + 1) {
            Some(p) => p,
            None => {
                proof { Self::lemma_no_form_1(s@, e0 as int); }
                return None;
            },
        };
        proof {
            assert forall|a: Ipv4Address| a.spec_text() == s@ implies x1 == a.b && e1 == e0 + 1 + dec_text(a.b as nat).len() by {
                Self::lemma_text_layout(a, s@);
                lemma_dec_text(a.b as nat);
                lemma_run_of_rendering(s@, e0 + 1, a.b as nat, x1 as nat, e1 as int);
            }
        }
        if e1 >= n || s.get_char(e1) != '.' {
            return None;
        }
        let (x2, e2) = match read_digits(s, n, e1 + 1) {
            Some(p) => p,
            None => {
                proof { Self::lemma_no_form_2(s@, e1 as int); }
                return None;
            },
        };
        proof {
            assert forall|a: Ipv4Address| a.spec_text() == s@ implies x2 == a.c && e2 == e1 + 1 + dec_text(a.c as nat).len() by {
                Self::lemma_text_layout(a, s@);
                lemma_dec_text(a.c as nat);
                lemma_run_of_rendering(s@, e1 + 1, a.c as nat, x2 as nat, e2 as int);
            }
        }
        if e2 >= n || s.get_char(e2) != '.' {
            return None;
        }
        let (x3, e3) = match read_digits(s, n, e2 + 1) {
            Some(p) => p,
            None => {
                proof { Self::lemma_no_form_3(s@, e2 as int); }
                return None;
            },
        };
        proof {
            assert forall|a: Ipv4Address| a.spec_text() == s@ implies x3 == a.d by {
                Self::lemma_text_layout(a, s@);
                lemma_dec_text(a.d as nat);
                lemma_run_of_rendering(s@, e2 + 1, a.d as nat, x3 as nat, e3 as int);
            }
        }
        if x0 > 255 || x1 > 255 || x2 > 255 || x3 > 255 {
            return None;
        }
        let cand = Ipv4Address { a: x0 as u8, b: x1 as u8, c: x2 as u8, d: x3 as u8 };
        let t = cand.to_text();
        if same_text(t.as_str(), s) {
            Some(cand)
        } else {
            None
        }
    }

    proof fn lemma_no_form(s: Seq<char>)
        requires
            s.len() == 0 || !crate::text::is_digit(s[0]),
        ensures
            forall|a: Ipv4Address| a.spec_text() != s,
    {
        assert forall|a: Ipv4Address| a.spec_text() != s by {
            if a.spec_text() == s {
                Self::lemma_text_layout(a, s);
                lemma_dec_text(a.a as nat);
                assert(s[0] == dec_text(a.a as nat)[0]);
            }
        }
    }

    proof fn lemma_no_form_1(s: Seq<char>, e0: int)
        requires
            0 <= e0,
            e0 + 1 == s.len() || !crate::text::is_digit(s[e0 + 1]),
            forall|a: Ipv4Address| a.spec_text() == s ==> e0 == dec_text(a.a as nat).len(),
        ensures
            forall|a: Ipv4Address| a.spec_text() != s,
    {
        assert forall|a: Ipv4Address| a.spec_text() != s by {
            if a.spec_text() == s {
                Self::lemma_text_layout(a, s);
                lemma_dec_text(a.b as nat);
                assert(s[e0 + 1] == dec_text(a.b as nat)[0]);
            }
        }
    }

    proof fn lemma_no_form_2(s: Seq<char>, e1: int)
        requires
            0 <= e1,
            e1 + 1 == s.len() || !crate::text::is_digit(s[e1 + 1]),
            forall|a: Ipv4Address| a.spec_text() == s ==> e1 == dec_text(a.a as nat).len() + 1 + dec_text(a.b as nat).len(),
        ensures
            forall|a: Ipv4Address| a.spec_text() != s,
    {
        assert forall|a: Ipv4Address| a.spec_text() != s by {
            if a.spec_text() == s {
                Self::lemma_text_layout(a, s);
                lemma_dec_text(a.c as nat);
                assert(s[e1 + 1] == dec_text(a.c as nat)[0]);
            }
        }
    }

    proof fn lemma_no_form_3(s: Seq<char>, e2: int)
        requires
            0 <= e2,
            e2 + 1 == s.len() || !crate::text::is_digit(s[e2 + 1]),
            forall|a: Ipv4Address| a.spec_text() == s ==> e2 == dec_text(a.a as nat).len() + 1 + dec_text(a.b as nat).len() + 1 + dec_text(a.c as nat).len(),
        ensures
            forall|a: Ipv4Address| a.spec_text() != s,
    {
        assert forall|a: Ipv4Address| a.spec_text() != s by {
            if a.spec_text() == s {
                Self::lemma_text_layout(a, s);
                lemma_dec_text(a.d as nat);
                assert(s[e2 + 1] == dec_text(a.d as nat)[0]);
            }
        }
    }
}

/// How one container of a blockade is to be created.
#[derive(Clone, Debug)]
pub struct BlockadeContainer {
    pub image: String,
    pub hostname: String,
    /// Host path to container path.
    pub volumes: Table<String>,
    pub expose: Vec<u16>,
    /// Published port to container port.
    pub ports: Vec<(u16, u16)>,
    /// Alias to the name of the linked container.
    pub links: Table<String>,
    pub command: Option<String>,
}

/// The parameters of the flaky and slow link profiles, and the network driver.
#[derive(Clone, Debug)]
pub struct BlockadeNetConfig {
    pub flaky: String,
    pub slow: String,
    pub driver: String,
}

/// The topology a blockade is created with.
#[derive(Clone, Debug)]
pub struct BlockadeConfig {
    pub containers: Table<BlockadeContainer>,
    pub network: BlockadeNetConfig,
}

/// The body of a command request.
#[derive(Clone, Debug)]
pub struct BlockadeCommandArgs {
    pub command: BlockadeCommand,
    pub container_names: Vec<String>,
}

/// The body of a network state request.
#[derive(Clone, Debug)]
pub struct BlockadeNetArgs {
    pub network_state: BlockadeNetStatus,
    pub container_names: Vec<String>,
}

/// The body of a partition request: each group becomes one partition.
#[derive(Clone, Debug)]
pub struct BlockadePartitionArgs {
    pub partitions: Vec<Vec<String>>,
}

/// What the service reports of one blockade: its containers by name.
#[derive(Clone, Debug)]
pub struct BlockadeState {
    pub containers: Table<BlockadeContainerState>,
}

/// What the service reports of one container.
#[derive(Clone, Debug)]
pub struct BlockadeContainerState {
    pub container_id: String,
    pub device: String,
    pub ip_address: Ipv4Address,
    pub name: String,
    pub network_state: BlockadeNetStatus,
    /// 0 stands for no partition.
    pub partition: u32,
    pub status: BlockadeContainerStatus,
}

/// The device of a container that reports none.
pub fn none_str_resource() -> (r: String)
    ensures
        r@ == Seq::<char>::empty(),
{
    String::new()
}

/// The partition of a container that reports none.
pub fn none_u32_resource() -> (r: u32)
    ensures
        r == 0,
{
    0
}

/// The address of a container that reports none.
pub fn ip_default_resource() -> (r: Ipv4Address)
    ensures
        r == Ipv4Address::zero(),
{
    Ipv4Address::unspecified()
}

impl Default for BlockadeContainer {
    /// An image "rust" on host "c0", with nothing mounted, exposed,
    /// published or linked, and no command.
    fn default() -> (r: Self)
        ensures
            r.image@ == "rust"@,
            r.hostname@ == "c0"@,
            r.volumes.wf() && r.volumes@.len() == 0,
            r.expose@.len() == 0,
            r.ports@.len() == 0,
            r.links.wf() && r.links@.len() == 0,
            r.command is None,
    {
        BlockadeContainer {
            image: String::from_str("rust"),
            hostname: String::from_str("c0"),
            volumes: Table::new(),
            expose: Vec::new(),
            ports: Vec::new(),
            links: Table::new(),
            command: None,
        }
    }
}

impl Default for BlockadeNetConfig {
    /// Flaky drops 10%; slow adds 75ms with 100ms of normal jitter; driver udn.
    fn default() -> (r: Self)
        ensures
            r.flaky@ == "10%"@,
            r.slow@ == "75ms 100ms distribution normal"@,
            r.driver@ == "udn"@,
    {
        BlockadeNetConfig {
            flaky: String::from_str("10%"),
            slow: String::from_str("75ms 100ms distribution normal"),
            driver: String::from_str("udn"),
        }
    }
}

impl Default for BlockadeConfig {
    /// No containers, and the default network parameters.
    fn default() -> (r: Self)
        ensures
            r.containers.wf() && r.containers@.len() == 0,
            r.network.flaky@ == "10%"@,
            r.network.slow@ == "75ms 100ms distribution normal"@,
            r.network.driver@ == "udn"@,
    {
        BlockadeConfig { containers: Table::new(), network: BlockadeNetConfig::default() }
    }
}

impl Default for BlockadeCommandArgs {
    fn default() -> (r: Self)
        ensures
            r.command == BlockadeCommand::Start,
            r.container_names@.len() == 0,
    {
        BlockadeCommandArgs { command: BlockadeCommand::Start, container_names: Vec::new() }
    }
}

impl Default for BlockadeNetArgs {
    fn default() -> (r: Self)
        ensures
            r.network_state == BlockadeNetStatus::Fast,
            r.container_names@.len() == 0,
    {
        BlockadeNetArgs { network_state: BlockadeNetStatus::Fast, container_names: Vec::new() }
    }
}

impl Default for BlockadePartitionArgs {
    fn default() -> (r: Self)
        ensures
            r.partitions@.len() == 0,
    {
        BlockadePartitionArgs { partitions: Vec::new() }
    }
}

impl Default for BlockadeState {
    fn default() -> (r: Self)
        ensures
            r.containers.wf() && r.containers@.len() == 0,
    {
        BlockadeState { containers: Table::new() }
    }
}

impl Default for BlockadeContainerState {
    /// A missing container of unknown link quality at 127.0.0.2, in no
    /// partition, with empty identifiers.
    fn default() -> (r: Self)
        ensures
            r.container_id@.len() == 0,
            r.device@.len() == 0,
            r.ip_address == (Ipv4Address { a: 127, b: 0, c: 0, d: 2 }),
            r.name@.len() == 0,
            r.network_state == BlockadeNetStatus::Unknown,
            r.partition == 0,
            r.status == BlockadeContainerStatus::Missing,
    {
        BlockadeContainerState {
            container_id: String::new(),
            device: String::new(),
            ip_address: Ipv4Address { a: 127, b: 0, c: 0, d: 2 },
            name: String::new(),
            network_state: BlockadeNetStatus::Unknown,
            partition: 0,
            status: BlockadeContainerStatus::Missing,
        }
    }
}

} // verus!
