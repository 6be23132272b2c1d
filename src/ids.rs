use vstd::prelude::*;

verus! {

/// Whether `c` is an ASCII decimal digit.
pub open spec fn is_digit(c: char) -> bool {
    '0' <= c && c <= '9'
}

/// Whether every character of `s` is a decimal digit.
pub open spec fn all_digits(s: Seq<char>) -> bool {
    forall|i: int| 0 <= i < s.len() ==> is_digit(#[trigger] s[i])
}

/// The value of a digit character.
pub open spec fn digit_value(c: char) -> int {
    c as int - '0' as int
}

/// The number that a string of decimal digits denotes (most significant first).
pub open spec fn digits_value(s: Seq<char>) -> nat
    decreases s.len(),
{
    if s.len() == 0 {
        0
    } else {
        (digits_value(s.drop_last()) * 10 + digit_value(s.last())) as nat
    }
}

/// The digit character of `d`, for `d < 10`.
pub open spec fn digit_char(d: nat) -> char {
    seq!['0', '1', '2', '3', '4', '5', '6', '7', '8', '9'][d as int]
}

/// The decimal text of `n`, without leading zeros.
pub open spec fn decimal(n: nat) -> Seq<char>
    decreases n,
{
    if n < 10 {
        seq![digit_char(n)]
    } else {
        decimal(n / 10).push(digit_char(n % 10))
    }
}

/// What parsing `s` as a non-zero `u64` gives: an optional leading `+`, then
/// one or more decimal digits whose value is in `1..=u64::MAX`.
pub open spec fn parse_nonzero_u64(s: Seq<char>) -> Option<u64> {
    let body = if s.len() > 0 && s[0] == '+' { s.drop_first() } else { s };
    if body.len() > 0 && all_digits(body) && 0 < digits_value(body) <= u64::MAX {
        Some(digits_value(body) as u64)
    } else {
        None
    }
}

proof fn lemma_digit_char(d: nat)
    requires
        d < 10,
    ensures
        is_digit(digit_char(d)),
        digit_value(digit_char(d)) == d,
{
    let ds = seq!['0', '1', '2', '3', '4', '5', '6', '7', '8', '9'];
    assert(ds[0] == '0' && ds[1] == '1' && ds[2] == '2' && ds[3] == '3' && ds[4] == '4');
    assert(ds[5] == '5' && ds[6] == '6' && ds[7] == '7' && ds[8] == '8' && ds[9] == '9');
}

/// The decimal text of `n` is a non-empty string of digits that denotes `n`.
pub proof fn lemma_decimal(n: nat)
    ensures
        decimal(n).len() > 0,
        all_digits(decimal(n)),
        digits_value(decimal(n)) == n,
    decreases n,
{
    if n < 10 {
        lemma_digit_char(n);
        assert(decimal(n).drop_last() =~= Seq::<char>::empty());
        assert(digits_value(Seq::<char>::empty()) == 0);
    } else {
        lemma_decimal(n / 10);
        lemma_digit_char(n % 10);
        let s = decimal(n);
        assert(s.drop_last() =~= decimal(n / 10));
        assert(s.last() == digit_char(n % 10));
        assert(n == (n / 10) * 10 + n % 10);
    }
}

/// Where the first `;` of `s` stands, if any.
pub open spec fn separator_index(s: Seq<char>) -> Option<nat>
    decreases s.len(),
{
    if s.len() == 0 {
        None
    } else if s[0] == ';' {
        Some(0)
    } else {
        match separator_index(s.drop_first()) {
            Some(i) => Some(i + 1),
            None => None,
        }
    }
}

/// A virtual channel's id: the identity that owns it and the source channel
/// whose events it mirrors.
#[derive(Clone, Copy, Debug, PartialEq, Eq, Hash, Structural)]
pub struct VirtualChannelId {
    pub channel_id: u64,
    pub owner_id: u64,
}

/// The room name of the id `(owner, channel)`: `"<owner>;<channel>"`.
pub open spec fn room_name(owner: u64, channel: u64) -> Seq<char> {
    decimal(owner as nat) + seq![';'] + decimal(channel as nat)
}

/// The id that the room name `s` denotes: the text before the first `;` is the
/// owner, the rest the source channel, each a non-zero `u64`.
pub open spec fn parse_room_name(s: Seq<char>) -> Option<VirtualChannelId> {
    match separator_index(s) {
        None => None,
        Some(i) => match (
            parse_nonzero_u64(s.take(i as int)),
            parse_nonzero_u64(s.skip(i as int + 1)),
        ) {
            (Some(o), Some(c)) => Some(VirtualChannelId { channel_id: c, owner_id: o }),
            _ => None,
        },
    }
}

/// Relies on `str::split_once`: it splits at the first occurrence of the
/// delimiter, and gives `None` where there is none.
#[verifier::external_body]
fn split_at_separator(s: &str) -> (r: Option<(&str, &str)>)
    ensures
        match r {
            None => !s@.contains(';'),
            Some((a, b)) => s@ == a@ + seq![';'] + b@ && !a@.contains(';'),
        },
{
    s.split_once(';')
}

/// Relies on `u64`'s `Display` (through `ToString`): the decimal digits,
/// without leading zeros.
#[verifier::external_body]
fn decimal_text(n: u64) -> (r: String)
    ensures
        r@ == decimal(n as nat),
{
    n.to_string()
}

/// Relies on `UserId::from_str` of serenity: it parses the text as a
/// `NonZeroU64`, which takes an optional `+` and decimal digits.
#[verifier::external_body]
pub(crate) fn parse_user_id(s: &str) -> (r: Option<u64>)
    ensures
        r == parse_nonzero_u64(s@),
{
    match <serenity::all::UserId as std::str::FromStr>::from_str(s) {
        Ok(id) => Some(id.get()),
        Err(_) => None,
    }
}

/// Relies on `ChannelId::from_str` of serenity: it parses the text as a
/// `NonZeroU64`, which takes an optional `+` and decimal digits.
#[verifier::external_body]
fn parse_channel_id(s: &str) -> (r: Option<u64>)
    ensures
        r == parse_nonzero_u64(s@),
{
    match <serenity::all::ChannelId as std::str::FromStr>::from_str(s) {
        Ok(id) => Some(id.get()),
        Err(_) => None,
    }
}

pub(crate) proof fn lemma_separator_split(a: Seq<char>, b: Seq<char>)
    requires
        !a.contains(';'),
    ensures
        separator_index(a + seq![';'] + b) == Some(a.len()),
    decreases a.len(),
{
    let s = a + seq![';'] + b;
    if a.len() == 0 {
        assert(s[0] == ';');
    } else {
        assert(s[0] == a[0]);
        assert(!a.drop_first().contains(';')) by {
            if a.drop_first().contains(';') {
                let k = choose|k: int| 0 <= k < a.drop_first().len() && a.drop_first()[k] == ';';
                assert(a[k + 1] == ';');
            }
        }
        lemma_separator_split(a.drop_first(), b);
        assert(s.drop_first() =~= a.drop_first() + seq![';'] + b);
    }
}

proof fn lemma_no_separator(s: Seq<char>)
    requires
        !s.contains(';'),
    ensures
        separator_index(s) is None,
    decreases s.len(),
{
    if s.len() > 0 {
        assert(s[0] != ';');
        assert(!s.drop_first().contains(';')) by {
            if s.drop_first().contains(';') {
                let k = choose|k: int| 0 <= k < s.drop_first().len() && s.drop_first()[k] == ';';
                assert(s[k + 1] == ';');
            }
        }
        lemma_no_separator(s.drop_first());
    }
}

impl From<(u64, u64)> for VirtualChannelId {
    /// The id owned by the first of the pair, for the source channel that is the second.
    fn from(pair: (u64, u64)) -> (r: VirtualChannelId)
        ensures
            r == (VirtualChannelId { channel_id: pair.1, owner_id: pair.0 }),
    {
        VirtualChannelId { channel_id: pair.1, owner_id: pair.0 }
    }
}

impl vstd::std_specs::convert::FromSpecImpl<(u64, u64)> for VirtualChannelId {
    open spec fn obeys_from_spec() -> bool {
        true
    }

    open spec fn from_spec(pair: (u64, u64)) -> VirtualChannelId {
        VirtualChannelId { channel_id: pair.1, owner_id: pair.0 }
    }
}

impl VirtualChannelId {
    /// The room name of this id, `"<owner>;<channel>"`.
    pub fn to_string(&self) -> (r: String)
        ensures
            r@ == room_name(self.owner_id, self.channel_id),
    {
        let owner = decimal_text(self.owner_id);
        let with_separator = owner.concat(";");
        let channel = decimal_text(self.channel_id);
        let r = with_separator.concat(channel.as_str());
        proof {
            reveal_strlit(";");
        }
        r
    }

    /// Reads an id back from its room name.
    pub fn from_str(s: &str) -> (r: Option<VirtualChannelId>)
        ensures
            r == parse_room_name(s@),
    {
        match split_at_separator(s) {
            None => {
                proof {
                    lemma_no_separator(s@);
                }
                None
            },
            Some((owner_text, channel_text)) => {
                proof {
                    lemma_separator_split(owner_text@, channel_text@);
                    let i = owner_text@.len() as int;
                    assert(s@.take(i) =~= owner_text@);
                    assert(s@.skip(i + 1) =~= channel_text@);
                }
                let owner = parse_user_id(owner_text);
                let channel = parse_channel_id(channel_text);
                match (owner, channel) {
                    (Some(o), Some(c)) => Some(VirtualChannelId { channel_id: c, owner_id: o }),
                    _ => None,
                }
            },
        }
    }
}

} // verus!
