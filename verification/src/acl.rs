//! Domain blocker: the per-domain access policy. Rules are held as one
//! immutable snapshot that `initialize` and `refresh` replace wholesale, so
//! a lookup always sees a complete rule set. A hostname is normalized
//! (ASCII-lowercased, port stripped) and then matched exactly or as a
//! domain suffix: a rule `blocked.com` also blocks `mail.blocked.com`.

use vstd::prelude::*;

verus! {

/// ASCII lowercase of one byte.
pub open spec fn lower_byte(b: u8) -> u8 {
    if 65 <= b && b <= 90 {
        (b + 32) as u8
    } else {
        b
    }
}

/// ASCII lowercase of a byte string.
pub open spec fn lower_seq(s: Seq<u8>) -> Seq<u8> {
    s.map_values(|b: u8| lower_byte(b))
}

/// Normalized form of a hostname: everything before the first colon
/// (dropping any `:port` suffix), ASCII-lowercased.
pub open spec fn normalize_host(s: Seq<u8>) -> Seq<u8>
    decreases s.len(),
{
    if s.len() == 0 {
        Seq::empty()
    } else if s[0] == 58 {
        Seq::empty()
    } else {
        seq![lower_byte(s[0])] + normalize_host(s.subrange(1, s.len() as int))
    }
}

/// If the first `j` bytes of `s` are colon-free and position `j` is the end
/// or a colon, the normalized host is the lowercased `j`-byte prefix.
proof fn lemma_normalize_prefix(s: Seq<u8>, j: int)
    requires
        0 <= j <= s.len(),
        forall|i: int| 0 <= i < j ==> s[i] != 58,
        j == s.len() || s[j] == 58,
    ensures
        normalize_host(s) == lower_seq(s.take(j)),
    decreases j,
{
    if j == 0 {
        assert(normalize_host(s) =~= lower_seq(s.take(0)));
    } else {
        let rest = s.subrange(1, s.len() as int);
        lemma_normalize_prefix(rest, j - 1);
        assert(normalize_host(s) =~= lower_seq(s.take(j))) by {
            assert(normalize_host(rest) == lower_seq(rest.take(j - 1)));
            assert forall|k: int| 0 <= k < j implies lower_seq(s.take(j))[k]
                == normalize_host(s)[k] by {
                if k > 0 {
                    assert(normalize_host(s)[k] == normalize_host(rest)[k - 1]);
                    assert(lower_seq(rest.take(j - 1))[k - 1] == lower_byte(rest[k - 1]));
                }
            }
        }
    }
}

/// A normalized host matches a rule exactly, or as a domain suffix with a
/// dot immediately before the rule.
pub open spec fn matches_rule(host: Seq<u8>, rule: Seq<u8>) -> bool {
    ||| host == rule
    ||| (host.len() > rule.len() && host.subrange(host.len() - rule.len(), host.len() as int)
            == rule && host[host.len() - rule.len() - 1] == 46)
}

/// A host is blocked by a snapshot when some rule in it matches the
/// normalized host.
pub open spec fn blocked_by(rules: Seq<Seq<u8>>, host: Seq<u8>) -> bool {
    exists|i: int| 0 <= i < rules.len() && matches_rule(normalize_host(host), rules[i])
}

/// The access policy. `rules` is the current snapshot, already normalized;
/// it is only ever replaced as a whole.
pub struct DomainBlocker {
    pub rules: Vec<Vec<u8>>,
    pub initialized: bool,
}

impl DomainBlocker {
    /// The snapshot as a sequence of byte strings.
    pub open spec fn rules_view(self) -> Seq<Seq<u8>> {
        self.rules@.map_values(|r: Vec<u8>| r@)
    }

    /// A blocker bound to its rule source but not yet loaded: it blocks
    /// nothing until `initialize` publishes a snapshot.
    pub fn new() -> (b: DomainBlocker)
        ensures
            !b.initialized,
            b.rules_view() =~= Seq::<Seq<u8>>::empty(),
    {
        let b = DomainBlocker { rules: Vec::new(), initialized: false };
        proof {
            assert(b.rules_view() =~= Seq::<Seq<u8>>::empty());
        }
        b
    }

    /// Publish the given rules, each normalized, as the new snapshot. The
    /// old snapshot is replaced in one step: afterwards the snapshot is
    /// exactly the new rule set, never a mixture.
    pub fn initialize(&mut self, raw_rules: &Vec<Vec<u8>>)
        ensures
            final(self).initialized,
            final(self).rules_view()
                =~= raw_rules@.map_values(|v: Vec<u8>| normalize_host(v@)),
    {
        let mut rules: Vec<Vec<u8>> = Vec::new();
        let mut i: usize = 0;
        while i < raw_rules.len()
            invariant
                i <= raw_rules@.len(),
                rules@.len() == i,
                forall|k: int| 0 <= k < i
                    ==> (#[trigger] rules@[k])@ == normalize_host(raw_rules@[k]@),
            decreases raw_rules@.len() - i,
        {
            let nr = normalize_hostname(raw_rules[i].as_slice());
            rules.push(nr);
            i = i + 1;
        }
        self.rules = rules;
        self.initialized = true;
    }

    /// Reload: same atomic replacement as `initialize`; a lookup sees either
    /// the old snapshot or, from here on, exactly the new one.
    pub fn refresh(&mut self, raw_rules: &Vec<Vec<u8>>)
        ensures
            final(self).initialized,
            final(self).rules_view()
                =~= raw_rules@.map_values(|v: Vec<u8>| normalize_host(v@)),
    {
        self.initialize(raw_rules);
    }

    /// Whether the normalized `host` is blocked by the current snapshot.
    /// No side effects.
    pub fn is_blocked(&self, host: &[u8]) -> (r: bool)
        ensures
            r == blocked_by(self.rules_view(), host@),
    {
        let n = normalize_hostname(host);
        let mut i: usize = 0;
        while i < self.rules.len()
            invariant
                i <= self.rules@.len(),
                n@ == normalize_host(host@),
                forall|k: int| 0 <= k < i
                    ==> !matches_rule(n@, #[trigger] self.rules_view()[k]),
            decreases self.rules@.len() - i,
        {
            if matches_rule_exec(n.as_slice(), self.rules[i].as_slice()) {
                assert(matches_rule(normalize_host(host@), self.rules_view()[i as int]));
                return true;
            }
            i = i + 1;
        }
        false
    }
}

/// Normalized form of a hostname: ASCII-lowercased, `:port` suffix dropped.
pub fn normalize_hostname(host: &[u8]) -> (r: Vec<u8>)
    ensures
        r@ == normalize_host(host@),
{
    let n = host.len();
    let mut out: Vec<u8> = Vec::new();
    let mut i: usize = 0;
    while i < n
        invariant
            i <= n,
            n == host@.len(),
            forall|k: int| 0 <= k < i ==> host@[k] != 58,
            out@ == lower_seq(host@.take(i as int)),
        decreases n - i,
    {
        let b = host[i];
        if b == 58 {
            proof {
                lemma_normalize_prefix(host@, i as int);
            }
            return out;
        }
        let lb = if 65 <= b && b <= 90 {
            b + 32
        } else {
            b
        };
        out.push(lb);
        proof {
            assert(out@ =~= lower_seq(host@.take(i as int + 1)));
        }
        i = i + 1;
    }
    proof {
        lemma_normalize_prefix(host@, n as int);
        assert(host@.take(n as int) =~= host@);
    }
    out
}

/// Whether `a` and `b` hold the same bytes.
pub(crate) fn bytes_eq(a: &[u8], b: &[u8]) -> (r: bool)
    ensures
        r == (a@ == b@),
{
    if a.len() != b.len() {
        return false;
    }
    let mut i: usize = 0;
    while i < a.len()
        invariant
            i <= a@.len(),
            a@.len() == b@.len(),
            forall|k: int| 0 <= k < i ==> a@[k] == b@[k],
        decreases a@.len() - i,
    {
        if a[i] != b[i] {
            return false;
        }
        i = i + 1;
    }
    proof {
        assert(a@ =~= b@);
    }
    true
}

/// Whether `host` (already normalized) matches `rule` exactly or as a
/// domain suffix.
fn matches_rule_exec(host: &[u8], rule: &[u8]) -> (r: bool)
    ensures
        r == matches_rule(host@, rule@),
{
    let hl = host.len();
    let rl = rule.len();
    if hl == rl {
        bytes_eq(host, rule)
    } else if hl > rl {
        if host[hl - rl - 1] != 46 {
            return false;
        }
        let off = hl - rl;
        let mut i: usize = 0;
        while i < rl
            invariant
                i <= rl,
                rl < hl,
                hl == host@.len(),
                rl == rule@.len(),
                off == hl - rl,
                forall|k: int| 0 <= k < i ==> host@[off + k] == rule@[k],
            decreases rl - i,
        {
            if host[off + i] != rule[i] {
                assert(host@.subrange(off as int, hl as int)[i as int] != rule@[i as int]);
                return false;
            }
            i = i + 1;
        }
        proof {
            assert(host@.subrange(off as int, hl as int) =~= rule@);
        }
        true
    } else {
        false
    }
}

} // verus!
