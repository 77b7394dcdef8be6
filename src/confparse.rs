//! The three-line settings file: `bot-account`, `channel` and `oauth`, each
//! followed by blanks and a value; anything after the value on its line is
//! ignored, and nothing after the `oauth` line is read.

use vstd::prelude::*;

verus! {

/// Blank characters skipped before a key (space, tab, carriage return, newline).
pub open spec fn is_multispace(c: char) -> bool {
    c == ' ' || c == '\t' || c == '\r' || c == '\n'
}

/// Characters that separate a key from its value.
pub open spec fn is_blank(c: char) -> bool {
    c == ' ' || c == '\t'
}

/// The first index at or after `i` whose character is not `multispace`.
pub open spec fn skip_multispace(s: Seq<char>, i: int) -> int
    decreases s.len() - i,
{
    if i < 0 || i >= s.len() || !is_multispace(s[i]) {
        i
    } else {
        skip_multispace(s, i + 1)
    }
}

/// The first index at or after `i` whose character is not blank.
pub open spec fn skip_blanks(s: Seq<char>, i: int) -> int
    decreases s.len() - i,
{
    if i < 0 || i >= s.len() || !is_blank(s[i]) {
        i
    } else {
        skip_blanks(s, i + 1)
    }
}

/// The first index at or after `i` that holds whitespace (space, tab,
/// carriage return or newline), or the end: where a value ends.
pub open spec fn till_blank(s: Seq<char>, i: int) -> int
    decreases s.len() - i,
{
    if i < 0 || i >= s.len() || is_multispace(s[i]) {
        i
    } else {
        till_blank(s, i + 1)
    }
}

/// The first index at or after `i` that holds a newline, or the end.
pub open spec fn till_newline(s: Seq<char>, i: int) -> int
    decreases s.len() - i,
{
    if i < 0 || i >= s.len() || s[i] == '\n' {
        i
    } else {
        till_newline(s, i + 1)
    }
}

/// One `key value` line read from index `i`: `None` where the key is not
/// found after the leading blanks, or no blank follows it; otherwise the
/// bounds of the value and the index where the next line may start (the
/// newline that ends this one, or the end).
pub open spec fn tagged_value(s: Seq<char>, i: int, key: Seq<char>) -> Option<(int, int, int)> {
    let a = skip_multispace(s, i);
    let b = a + key.len();
    if b > s.len() || s.subrange(a, b) != key {
        None
    } else {
        let c = skip_blanks(s, b);
        if c == b {
            None
        } else {
            let d = till_blank(s, c);
            Some((c, d, till_newline(s, d)))
        }
    }
}

/// The three values of a settings text, in the order bot account, channel,
/// token, or `None` where one of the lines cannot be read.
pub open spec fn parsed_config(s: Seq<char>) -> Option<(Seq<char>, Seq<char>, Seq<char>)> {
    match tagged_value(s, 0, "bot-account"@) {
        None => None,
        Some((a0, a1, i)) => match tagged_value(s, i, "channel"@) {
            None => None,
            Some((b0, b1, j)) => match tagged_value(s, j, "oauth"@) {
                None => None,
                Some((c0, c1, _)) => Some(
                    (s.subrange(a0, a1), s.subrange(b0, b1), s.subrange(c0, c1)),
                ),
            },
        },
    }
}

/// The account that reads chat, the channel that is watched, and the token
/// of the account.
#[derive(Debug)]
pub struct EkbConfig {
    bot_account: String,
    channel: String,
    oauth: String,
}

impl EkbConfig {
    pub closed spec fn spec_bot_account(&self) -> Seq<char> {
        self.bot_account@
    }

    pub closed spec fn spec_channel(&self) -> Seq<char> {
        self.channel@
    }

    pub closed spec fn spec_oauth(&self) -> Seq<char> {
        self.oauth@
    }

    pub fn bot_account(&self) -> (r: String)
        ensures
            r@ == self.spec_bot_account(),
    {
        self.bot_account.clone()
    }

    pub fn channel(&self) -> (r: String)
        ensures
            r@ == self.spec_channel(),
    {
        self.channel.clone()
    }

    pub fn oauth(&self) -> (r: String)
        ensures
            r@ == self.spec_oauth(),
    {
        self.oauth.clone()
    }
}

fn skip_multispace_exec(s: &str, n: usize, i: usize) -> (r: usize)
    requires
        n == s@.len(),
        i <= n,
    ensures
        r == skip_multispace(s@, i as int),
        i <= r <= n,
{
    let mut j = i;
    while j < n
        invariant
            n == s@.len(),
            i <= j <= n,
            skip_multispace(s@, j as int) == skip_multispace(s@, i as int),
        decreases n - j,
    {
        let c = s.get_char(j);
        if !(c == ' ' || c == '\t' || c == '\r' || c == '\n') {
            return j;
        }
        j = j + 1;
    }
    j
}

fn skip_blanks_exec(s: &str, n: usize, i: usize) -> (r: usize)
    requires
        n == s@.len(),
        i <= n,
    ensures
        r == skip_blanks(s@, i as int),
        i <= r <= n,
{
    let mut j = i;
    while j < n
        invariant
            n == s@.len(),
            i <= j <= n,
            skip_blanks(s@, j as int) == skip_blanks(s@, i as int),
        decreases n - j,
    {
        let c = s.get_char(j);
        if !(c == ' ' || c == '\t') {
            return j;
        }
        j = j + 1;
    }
    j
}

fn till_blank_exec(s: &str, n: usize, i: usize) -> (r: usize)
    requires
        n == s@.len(),
        i <= n,
    ensures
        r == till_blank(s@, i as int),
        i <= r <= n,
{
    let mut j = i;
    while j < n
        invariant
            n == s@.len(),
            i <= j <= n,
            till_blank(s@, j as int) == till_blank(s@, i as int),
        decreases n - j,
    {
        let c = s.get_char(j);
        if c == ' ' || c == '\t' || c == '\r' || c == '\n' {
            return j;
        }
        j = j + 1;
    }
    j
}

fn till_newline_exec(s: &str, n: usize, i: usize) -> (r: usize)
    requires
        n == s@.len(),
        i <= n,
    ensures
        r == till_newline(s@, i as int),
        i <= r <= n,
{
    let mut j = i;
    while j < n
        invariant
            n == s@.len(),
            i <= j <= n,
            till_newline(s@, j as int) == till_newline(s@, i as int),
        decreases n - j,
    {
        let c = s.get_char(j);
        if c == '\n' {
            return j;
        }
        j = j + 1;
    }
    j
}

spec fn widen(r: Option<(usize, usize, usize)>) -> Option<(int, int, int)> {
    match r {
        None => None,
        Some((c, d, e)) => Some((c as int, d as int, e as int)),
    }
}

/// Reads one `key value` line from index `i` (see `tagged_value`).
fn get_tagged_value(key: &str, s: &str, n: usize, i: usize) -> (r: Option<(usize, usize, usize)>)
    requires
        n == s@.len(),
        i <= n,
    ensures
        tagged_value(s@, i as int, key@) == widen(r),
        r matches Some((c, d, e)) ==> i <= c <= d <= e <= n,
{
    let a = skip_multispace_exec(s, n, i);
    let k = key.unicode_len();
    if k > n - a {
        return None;
    }
    let b = a + k;
    let mut j: usize = 0;
    while j < k
        invariant
            n == s@.len(),
            k == key@.len(),
            a == skip_multispace(s@, i as int),
            a + k == b <= n,
            j <= k,
            forall|m: int| 0 <= m < j ==> s@[a + m] == key@[m],
        decreases k - j,
    {
        if s.get_char(a + j) != key.get_char(j) {
            assert(s@.subrange(a as int, b as int)[j as int] != key@[j as int]);
            return None;
        }
        j = j + 1;
    }
    assert(s@.subrange(a as int, b as int) =~= key@);
    let c = skip_blanks_exec(s, n, b);
    if c == b {
        return None;
    }
    let d = till_blank_exec(s, n, c);
    let e = till_newline_exec(s, n, d);
    Some((c, d, e))
}

/// Reads the three settings lines.
pub fn parse_config(conf: &str) -> (r: Result<EkbConfig, String>)
    ensures
        match parsed_config(conf@) {
            None => r is Err,
            Some((a, b, c)) => r matches Ok(cfg) && cfg.spec_bot_account() == a
                && cfg.spec_channel() == b && cfg.spec_oauth() == c,
        },
{
    proof {
        reveal_strlit("bot-account");
        reveal_strlit("channel");
        reveal_strlit("oauth");
    }
    let n = conf.unicode_len();
    let (a0, a1, i) = match get_tagged_value("bot-account", conf, n, 0) {
        None => {
            return Err(String::from_str("expected the line `bot-account <name>`"));
        },
        Some(t) => t,
    };
    let (b0, b1, j) = match get_tagged_value("channel", conf, n, i) {
        None => {
            return Err(String::from_str("expected the line `channel <name>`"));
        },
        Some(t) => t,
    };
    let (c0, c1, _) = match get_tagged_value("oauth", conf, n, j) {
        None => {
            return Err(String::from_str("expected the line `oauth <token>`"));
        },
        Some(t) => t,
    };
    let bot_account = String::from_str(conf.substring_char(a0, a1));
    let channel = String::from_str(conf.substring_char(b0, b1));
    let oauth = String::from_str(conf.substring_char(c0, c1));
    Ok(EkbConfig { bot_account, channel, oauth })
}

/// The token without its `oauth:` prefix, where it has one.
pub open spec fn token_without_prefix(s: Seq<char>) -> Seq<char> {
    if s.len() >= 6 && s.subrange(0, 6) == "oauth:"@ {
        s.subrange(6, s.len() as int)
    } else {
        s
    }
}

/// Takes the `oauth:` prefix off a token, which the settings file may hold
/// with or without it.
pub fn strip_oauth_prefix(token: &str) -> (r: String)
    ensures
        r@ == token_without_prefix(token@),
{
    proof {
        reveal_strlit("oauth:");
    }
    let n = token.unicode_len();
    if n >= 6 {
        let head = token.substring_char(0, 6);
        let prefix = "oauth:";
        let mut same = true;
        let mut j: usize = 0;
        while j < 6
            invariant
                n == token@.len(),
                n >= 6,
                head@ == token@.subrange(0, 6),
                head@.len() == 6,
                prefix@ == "oauth:"@,
                prefix@.len() == 6,
                j <= 6,
                same <==> forall|m: int| 0 <= m < j ==> head@[m] == prefix@[m],
            decreases 6 - j,
        {
            if head.get_char(j) != prefix.get_char(j) {
                same = false;
            }
            j = j + 1;
        }
        if same {
            assert(head@ =~= prefix@);
            return String::from_str(token.substring_char(6, n));
        }
        assert(head@ != prefix@) by {
            if head@ == prefix@ {
                assert(forall|m: int| 0 <= m < 6 ==> head@[m] == prefix@[m]);
            }
        }
    }
    String::from_str(token)
}

} // verus!
