//! Multi-model consensus: responses are grouped by what they say, and the
//! groups are ranked so that a strategy can pick the winner.
//!
//! Confidences and ratios are numbers between 0 and 1; they are held as
//! the bit patterns of `f64` values (`f64::to_bits`).

use vstd::prelude::*;

use crate::error::{BastionError, BastionResult};
use crate::text::{owned, spec_to_lowercase, to_lowercase, trim, trimmed};

verus! {

#[derive(Debug)]
pub struct AgentResponse {
    pub content: String,
    pub confidence_bits: u64,
    pub model_id: String,
    pub metadata: Vec<(String, String)>,
}

/// The mathematical value of an [`AgentResponse`].
pub struct AgentResponseView {
    pub content: Seq<char>,
    pub confidence_bits: u64,
    pub model_id: Seq<char>,
    pub metadata: Seq<(Seq<char>, Seq<char>)>,
}

impl View for AgentResponse {
    type V = AgentResponseView;

    open spec fn view(&self) -> AgentResponseView {
        AgentResponseView {
            content: self.content@,
            confidence_bits: self.confidence_bits,
            model_id: self.model_id@,
            metadata: crate::checkpoint::pairs_view(self.metadata@),
        }
    }
}

impl AgentResponse {
    /// A copy of this response.
    pub fn duplicate(&self) -> (r: AgentResponse)
        ensures
            r@ == self@,
    {
        AgentResponse {
            content: self.content.clone(),
            confidence_bits: self.confidence_bits,
            model_id: self.model_id.clone(),
            metadata: crate::checkpoint::copy_pairs(&self.metadata),
        }
    }
}

#[derive(Debug, Clone, Copy, PartialEq, Eq, Structural)]
pub enum ConsensusStrategy {
    /// More than half must agree.
    Majority,
    /// All agents must agree.
    Unanimous,
    /// Weighted by confidence: the highest weighted group wins.
    Weighted,
    /// Custom threshold (e.g. the bits of 0.67 for a 2/3 supermajority).
    Supermajority(u64),
}

impl Default for ConsensusStrategy {
    fn default() -> (s: Self)
        ensures
            s == ConsensusStrategy::Majority,
    {
        ConsensusStrategy::Majority
    }
}

#[derive(Debug, Clone, Copy, PartialEq, Eq, Structural)]
pub struct ConsensusConfig {
    pub strategy: ConsensusStrategy,
    pub min_confidence_bits: u64,
    pub timeout_ms: u64,
}

impl Default for ConsensusConfig {
    /// Majority, no minimum confidence (0.0), 30 seconds.
    fn default() -> (c: Self)
        ensures
            c.strategy == ConsensusStrategy::Majority,
            c.min_confidence_bits == 0,
            c.timeout_ms == 30_000,
    {
        ConsensusConfig { strategy: ConsensusStrategy::Majority, min_confidence_bits: 0, timeout_ms: 30_000 }
    }
}

#[derive(Debug)]
pub struct ConsensusResult {
    pub chosen: AgentResponse,
    pub agreement_ratio_bits: u64,
    pub dissenting: Vec<AgentResponse>,
    pub confidence_bits: u64,
    pub total_responses: usize,
    pub failed_agents: usize,
}

/// What responses are compared by: their content, trimmed and lower-cased.
pub open spec fn content_key(content: Seq<char>) -> Seq<char> {
    spec_to_lowercase(trimmed(content))
}

/// Responses that differ only in white space around their content share a
/// key.
pub proof fn law_content_key_ignores_outer_white_space(c: char, content: Seq<char>)
    requires
        crate::text::is_white_space(c),
    ensures
        content_key(seq![c] + content) == content_key(content),
        content_key(content.push(c)) == content_key(content),
{
    crate::text::law_trim_ignores_outer_white_space(c, content);
}

/// The key of each response.
pub open spec fn response_keys(responses: Seq<AgentResponse>) -> Seq<Seq<char>> {
    responses.map_values(|r: AgentResponse| content_key(r.content@))
}

/// Normalizes a response's content for comparison: trimmed, then lower-cased.
pub fn normalize(content: &str) -> (r: String)
    ensures
        r@ == content_key(content@),
{
    to_lowercase(trim(content).as_str())
}

/// `gs` splits the indices `0..keys.len()` into groups of equal key: every
/// index is in a group, each group lists its indices in increasing order,
/// all members of a group share a key, and no two groups share one.
pub open spec fn is_grouping(keys: Seq<Seq<char>>, gs: Seq<Seq<usize>>) -> bool {
    &&& forall|g: int| 0 <= g < gs.len() ==> #[trigger] gs[g].len() > 0
    &&& forall|g: int, a: int| 0 <= g < gs.len() && 0 <= a < gs[g].len() ==> #[trigger] gs[g][a] < keys.len()
    &&& forall|g: int, a: int, b: int| 0 <= g < gs.len() && 0 <= a < b < gs[g].len() ==> #[trigger] gs[g][a] < #[trigger] gs[g][b]
    &&& forall|g: int, a: int| 0 <= g < gs.len() && 0 <= a < gs[g].len() ==> keys[#[trigger] gs[g][a] as int] == keys[gs[g][0] as int]
    &&& forall|g: int, h: int| 0 <= g < gs.len() && 0 <= h < gs.len() && g != h ==> keys[#[trigger] gs[g][0] as int] != keys[#[trigger] gs[h][0] as int]
    &&& forall|j: int| 0 <= j < keys.len() ==> #[trigger] in_some_group(gs, j)
}

/// Index `j` is listed in some group.
pub open spec fn in_some_group(gs: Seq<Seq<usize>>, j: int) -> bool {
    exists|g: int, a: int| 0 <= g < gs.len() && 0 <= a < gs[g].len() && #[trigger] gs[g][a] == j
}

/// Larger groups come first; among groups of one size, the group whose
/// first response came first comes first.
pub open spec fn is_ranked(gs: Seq<Seq<usize>>) -> bool {
    forall|g: int, h: int| 0 <= g < h < gs.len() ==> {
        ||| #[trigger] gs[g].len() > #[trigger] gs[h].len()
        ||| (gs[g].len() == gs[h].len() && gs[g][0] < gs[h][0])
    }
}

/// The views of a vector of groups.
pub open spec fn groups_view(gs: Seq<Vec<usize>>) -> Seq<Seq<usize>> {
    gs.map_values(|v: Vec<usize>| v@)
}

fn copy_indices(v: &Vec<usize>) -> (r: Vec<usize>)
    ensures
        r@ == v@,
{
    let mut out: Vec<usize> = Vec::new();
    let mut i: usize = 0;
    while i < v.len()
        invariant
            i <= v@.len(),
            out@ == v@.subrange(0, i as int),
        decreases v@.len() - i,
    {
        out.push(v[i]);
        i = i + 1;
        assert(out@ =~= v@.subrange(0, i as int));
    }
    assert(out@ =~= v@);
    out
}

proof fn lemma_increasing_len(t: Seq<usize>, n: int)
    requires
        0 <= n,
        forall|a: int, b: int| 0 <= a < b < t.len() ==> #[trigger] t[a] < #[trigger] t[b],
        forall|a: int| 0 <= a < t.len() ==> #[trigger] t[a] < n,
    ensures
        t.len() <= n,
{
    if t.len() > 0 {
        assert forall|k: int| 0 <= k < t.len() implies #[trigger] t[k] >= k by {
            lemma_increasing_at_least(t, k);
        }
        assert(t[t.len() - 1] >= t.len() - 1);
        assert(t[t.len() - 1] < n);
    }
}

proof fn lemma_increasing_at_least(t: Seq<usize>, k: int)
    requires
        forall|a: int, b: int| 0 <= a < b < t.len() ==> #[trigger] t[a] < #[trigger] t[b],
        0 <= k < t.len(),
    ensures
        t[k] >= k,
    decreases k,
{
    if k > 0 {
        lemma_increasing_at_least(t, k - 1);
        assert(t[k - 1] < t[k]);
    }
}

fn find_group(gs: &Vec<Vec<usize>>, keys: &Vec<String>, i: usize) -> (r: Option<usize>)
    requires
        i < keys@.len(),
        forall|g: int| 0 <= g < gs@.len() ==> #[trigger] gs@[g]@.len() > 0,
        forall|g: int, a: int| 0 <= g < gs@.len() && 0 <= a < gs@[g]@.len() ==> #[trigger] gs@[g]@[a] < i,
    ensures
        match r {
            Some(g) => g < gs@.len() && keys@[gs@[g as int]@[0] as int]@ == keys@[i as int]@,
            None => forall|h: int| 0 <= h < gs@.len() ==> keys@[#[trigger] gs@[h]@[0] as int]@ != keys@[i as int]@,
        },
{
    let mut g: usize = 0;
    while g < gs.len()
        invariant
            i < keys@.len(),
            g <= gs@.len(),
            forall|g: int| 0 <= g < gs@.len() ==> #[trigger] gs@[g]@.len() > 0,
            forall|g: int, a: int| 0 <= g < gs@.len() && 0 <= a < gs@[g]@.len() ==> #[trigger] gs@[g]@[a] < i,
            forall|h: int| 0 <= h < g ==> keys@[#[trigger] gs@[h]@[0] as int]@ != keys@[i as int]@,
        decreases gs@.len() - g,
    {
        let first = gs[g][0];
        if keys[first].eq(&keys[i]) {
            return Some(g);
        }
        g = g + 1;
    }
    None
}

/// Groups the responses by normalized content: in order of first
/// appearance, each group listing its responses' indices in order.
fn first_seen_groups(keys: &Vec<String>) -> (gs: Vec<Vec<usize>>)
    ensures
        is_grouping(keys@.map_values(|k: String| k@), groups_view(gs@)),
        forall|g: int, h: int| 0 <= g < h < gs@.len() ==> #[trigger] gs@[g]@[0] < #[trigger] gs@[h]@[0],
{
    let ghost ks = keys@.map_values(|k: String| k@);
    let mut gs: Vec<Vec<usize>> = Vec::new();
    let mut i: usize = 0;
    while i < keys.len()
        invariant
            i <= keys@.len(),
            ks == keys@.map_values(|k: String| k@),
            forall|g: int| 0 <= g < gs@.len() ==> #[trigger] gs@[g]@.len() > 0,
            forall|g: int, a: int| 0 <= g < gs@.len() && 0 <= a < gs@[g]@.len() ==> #[trigger] gs@[g]@[a] < i,
            forall|g: int, a: int, b: int| 0 <= g < gs@.len() && 0 <= a < b < gs@[g]@.len() ==> #[trigger] gs@[g]@[a] < #[trigger] gs@[g]@[b],
            forall|g: int, a: int| 0 <= g < gs@.len() && 0 <= a < gs@[g]@.len() ==> ks[#[trigger] gs@[g]@[a] as int] == ks[gs@[g]@[0] as int],
            forall|g: int, h: int| 0 <= g < gs@.len() && 0 <= h < gs@.len() && g != h ==> ks[#[trigger] gs@[g]@[0] as int] != ks[#[trigger] gs@[h]@[0] as int],
            forall|j: int| 0 <= j < i ==> #[trigger] in_some_group(groups_view(gs@), j),
            forall|g: int, h: int| 0 <= g < h < gs@.len() ==> #[trigger] gs@[g]@[0] < #[trigger] gs@[h]@[0],
        decreases keys@.len() - i,
    {
        let ghost old_gs = gs@;
        let found = find_group(&gs, keys, i);
        if let Some(g) = found {
            let mut grown = copy_indices(&gs[g]);
            grown.push(i);
            let ghost grown_v = grown@;
            gs.set(g, grown);
            proof {
                assert(grown_v == old_gs[g as int]@.push(i));
                let gv = groups_view(gs@);
                let ov = groups_view(old_gs);
                assert forall|j: int| 0 <= j < i + 1 implies #[trigger] in_some_group(gv, j) by {
                    if j == i {
                        assert(gv[g as int][grown_v.len() - 1] == j);
                    } else {
                        assert(in_some_group(ov, j));
                        let (g2, a) = choose|g2: int, a: int| 0 <= g2 < ov.len() && 0 <= a < ov[g2].len() && #[trigger] ov[g2][a] == j;
                        assert(gv[g2][a] == j);
                    }
                }
            }
        } else {
            let mut fresh: Vec<usize> = Vec::new();
            fresh.push(i);
            gs.push(fresh);
            proof {
                let gv = groups_view(gs@);
                let ov = groups_view(old_gs);
                assert forall|j: int| 0 <= j < i + 1 implies #[trigger] in_some_group(gv, j) by {
                    if j == i {
                        assert(gv[old_gs.len() as int][0] == j);
                    } else {
                        assert(in_some_group(ov, j));
                        let (g2, a) = choose|g2: int, a: int| 0 <= g2 < ov.len() && 0 <= a < ov[g2].len() && #[trigger] ov[g2][a] == j;
                        assert(gv[g2][a] == j);
                    }
                }
            }
        }
        i = i + 1;
    }
    gs
}

/// Group `g` is among those picked by `p`.
pub open spec fn listed(p: Seq<int>, g: int) -> bool {
    exists|k: int| 0 <= k < p.len() && #[trigger] p[k] == g
}

/// Reorders groups largest first, keeping their order among groups of one
/// size. Also gives, for each place of the result, the group it holds.
fn rank_groups(gs: &Vec<Vec<usize>>, n: usize) -> (r: (Vec<Vec<usize>>, Ghost<Seq<int>>))
    requires
        forall|g: int| 0 <= g < gs@.len() ==> 0 < #[trigger] gs@[g]@.len() <= n,
    ensures
        r.0@.len() == r.1@.len(),
        forall|k: int| 0 <= k < r.1@.len() ==> 0 <= #[trigger] r.1@[k] < gs@.len() && r.0@[k]@ == gs@[r.1@[k]]@,
        forall|g: int| 0 <= g < gs@.len() ==> #[trigger] listed(r.1@, g),
        forall|k1: int, k2: int| 0 <= k1 < k2 < r.1@.len() ==> {
            ||| gs@[#[trigger] r.1@[k1]]@.len() > gs@[#[trigger] r.1@[k2]]@.len()
            ||| (gs@[r.1@[k1]]@.len() == gs@[r.1@[k2]]@.len() && r.1@[k1] < r.1@[k2])
        },
{
    let m = gs.len();
    let mut out: Vec<Vec<usize>> = Vec::new();
    let ghost mut p: Seq<int> = Seq::empty();
    let mut s: usize = n;
    while s > 0
        invariant
            m == gs@.len(),
            forall|g: int| 0 <= g < gs@.len() ==> 0 < #[trigger] gs@[g]@.len() <= n,
            s <= n,
            out@.len() == p.len(),
            forall|k: int| 0 <= k < p.len() ==> 0 <= #[trigger] p[k] < m && out@[k]@ == gs@[p[k]]@,
            forall|k: int| 0 <= k < p.len() ==> gs@[#[trigger] p[k]]@.len() > s,
            forall|g: int| 0 <= g < m && gs@[g]@.len() > s ==> #[trigger] listed(p, g),
            forall|k1: int, k2: int| 0 <= k1 < k2 < p.len() ==> {
                ||| gs@[#[trigger] p[k1]]@.len() > gs@[#[trigger] p[k2]]@.len()
                ||| (gs@[p[k1]]@.len() == gs@[p[k2]]@.len() && p[k1] < p[k2])
            },
        decreases s,
    {
        let mut g: usize = 0;
        while g < m
            invariant
                m == gs@.len(),
                forall|g: int| 0 <= g < gs@.len() ==> 0 < #[trigger] gs@[g]@.len() <= n,
                0 < s <= n,
                g <= m,
                out@.len() == p.len(),
                forall|k: int| 0 <= k < p.len() ==> 0 <= #[trigger] p[k] < m && out@[k]@ == gs@[p[k]]@,
                forall|k: int| 0 <= k < p.len() ==> gs@[#[trigger] p[k]]@.len() > s || (gs@[p[k]]@.len() == s && p[k] < g),
                forall|h: int| 0 <= h < m && (gs@[h]@.len() > s || (gs@[h]@.len() == s && h < g)) ==> #[trigger] listed(p, h),
                forall|k1: int, k2: int| 0 <= k1 < k2 < p.len() ==> {
                    ||| gs@[#[trigger] p[k1]]@.len() > gs@[#[trigger] p[k2]]@.len()
                    ||| (gs@[p[k1]]@.len() == gs@[p[k2]]@.len() && p[k1] < p[k2])
                },
            decreases m - g,
        {
            if gs[g].len() == s {
                let ghost old_p = p;
                out.push(copy_indices(&gs[g]));
                proof {
                    p = p.push(g as int);
                    assert forall|h: int| 0 <= h < m && (gs@[h]@.len() > s || (gs@[h]@.len() == s && h < g + 1)) implies #[trigger] listed(p, h) by {
                        if h == g {
                            assert(p[p.len() - 1] == h);
                        } else {
                            assert(listed(old_p, h));
                            let k = choose|k: int| 0 <= k < old_p.len() && #[trigger] old_p[k] == h;
                            assert(p[k] == h);
                        }
                    }
                }
            } else {
                proof {
                    assert forall|h: int| 0 <= h < m && (gs@[h]@.len() > s || (gs@[h]@.len() == s && h < g + 1)) implies #[trigger] listed(p, h) by {
                        if h != g {
                            assert(listed(p, h));
                        }
                    }
                }
            }
            g = g + 1;
        }
        s = s - 1;
    }
    (out, Ghost(p))
}

/// Groups the responses by normalized content and ranks the groups:
/// larger groups first, and among groups of one size the one whose first
/// response came first. Each group lists its responses' indices in order.
pub fn group_by_content(responses: &[AgentResponse]) -> (gs: Vec<Vec<usize>>)
    ensures
        is_grouping(response_keys(responses@), groups_view(gs@)),
        is_ranked(groups_view(gs@)),
{
    let ghost ks = response_keys(responses@);
    let n = responses.len();
    let mut keys: Vec<String> = Vec::new();
    let mut i: usize = 0;
    while i < n
        invariant
            n == responses@.len(),
            i <= n,
            keys@.len() == i,
            forall|k: int| 0 <= k < i ==> #[trigger] keys@[k]@ == content_key(responses@[k].content@),
        decreases n - i,
    {
        keys.push(normalize(responses[i].content.as_str()));
        i = i + 1;
    }
    assert(keys@.map_values(|k: String| k@) =~= ks);
    let first = first_seen_groups(&keys);
    let ghost fg = groups_view(first@);
    proof {
        assert forall|g: int| 0 <= g < first@.len() implies 0 < #[trigger] first@[g]@.len() <= n by {
            assert(fg[g] == first@[g]@);
            lemma_increasing_len(fg[g], n as int);
        }
    }
    let (out, Ghost(p)) = rank_groups(&first, n);
    proof {
        let og = groups_view(out@);
        assert forall|k: int| 0 <= k < og.len() implies #[trigger] og[k] == fg[p[k]] by {
            assert(og[k] == out@[k]@);
        }
        assert forall|k1: int, k2: int| 0 <= k1 < og.len() && 0 <= k2 < og.len() && k1 != k2 implies #[trigger] p[k1] != #[trigger] p[k2] by {
            if k1 < k2 {
                assert(first@[p[k1]]@.len() > first@[p[k2]]@.len() || p[k1] < p[k2]);
            } else {
                assert(first@[p[k2]]@.len() > first@[p[k1]]@.len() || p[k2] < p[k1]);
            }
        }
        assert forall|g: int| 0 <= g < og.len() implies #[trigger] og[g].len() > 0 by {
            assert(og[g] == fg[p[g]]);
        }
        assert forall|g: int, a: int| 0 <= g < og.len() && 0 <= a < og[g].len() implies #[trigger] og[g][a] < ks.len() by {
            assert(og[g] == fg[p[g]]);
        }
        assert forall|g: int, a: int, b: int| 0 <= g < og.len() && 0 <= a < b < og[g].len() implies #[trigger] og[g][a] < #[trigger] og[g][b] by {
            assert(og[g] == fg[p[g]]);
        }
        assert forall|g: int, a: int| 0 <= g < og.len() && 0 <= a < og[g].len() implies ks[#[trigger] og[g][a] as int] == ks[og[g][0] as int] by {
            assert(og[g] == fg[p[g]]);
        }
        assert forall|g: int, h: int| 0 <= g < og.len() && 0 <= h < og.len() && g != h implies ks[#[trigger] og[g][0] as int] != ks[#[trigger] og[h][0] as int] by {
            assert(og[g] == fg[p[g]]);
            assert(og[h] == fg[p[h]]);
            assert(p[g] != p[h]);
        }
        assert forall|j: int| 0 <= j < ks.len() implies #[trigger] in_some_group(og, j) by {
            assert(in_some_group(fg, j));
            let (g, a) = choose|g: int, a: int| 0 <= g < fg.len() && 0 <= a < fg[g].len() && #[trigger] fg[g][a] == j;
            assert(listed(p, g));
            let k = choose|k: int| 0 <= k < p.len() && #[trigger] p[k] == g;
            assert(og[k] == fg[g]);
            assert(og[k][a] == j);
        }
        assert forall|g: int, h: int| 0 <= g < h < og.len() implies {
            ||| #[trigger] og[g].len() > #[trigger] og[h].len()
            ||| (og[g].len() == og[h].len() && og[g][0] < og[h][0])
        } by {
            assert(og[g] == fg[p[g]]);
            assert(og[h] == fg[p[h]]);
            assert(first@[p[g]]@.len() > first@[p[h]]@.len() || (first@[p[g]]@.len() == first@[p[h]]@.len() && p[g] < p[h]));
            if first@[p[g]]@.len() == first@[p[h]]@.len() && p[g] < p[h] {
                assert(first@[p[g]]@[0] < first@[p[h]]@[0]);
            }
        }
    }
    out
}

/// Two responses stand in the same group exactly when their normalized
/// contents are equal.
pub proof fn law_same_group_iff_same_key(keys: Seq<Seq<char>>, gs: Seq<Seq<usize>>, g: int, a: int, h: int, b: int)
    requires
        is_grouping(keys, gs),
        0 <= g < gs.len(),
        0 <= a < gs[g].len(),
        0 <= h < gs.len(),
        0 <= b < gs[h].len(),
    ensures
        keys[gs[g][a] as int] == keys[gs[h][b] as int] <==> g == h,
{
    assert(keys[gs[g][a] as int] == keys[gs[g][0] as int]);
    assert(keys[gs[h][b] as int] == keys[gs[h][0] as int]);
    if g != h {
        assert(keys[gs[g][0] as int] != keys[gs[h][0] as int]);
    }
}

/// The first ranked group is a largest one: no group has more responses.
pub proof fn law_first_group_is_largest(gs: Seq<Seq<usize>>)
    requires
        is_ranked(gs),
        gs.len() > 0,
    ensures
        forall|h: int| 0 <= h < gs.len() ==> gs[0].len() >= #[trigger] gs[h].len(),
{
    assert forall|h: int| 0 <= h < gs.len() implies gs[0].len() >= #[trigger] gs[h].len() by {
        if h > 0 {
            assert(gs[0].len() > gs[h].len() || gs[0].len() == gs[h].len());
        }
    }
}

/// Whether the winning group is large enough, for the strategies that
/// count responses: a majority needs more than half of them, unanimity
/// needs all of them. The other strategies are decided on their numbers,
/// and give nothing here.
pub fn count_rule_met(strategy: ConsensusStrategy, agreeing: usize, total: usize) -> (r: Option<bool>)
    ensures
        r == (match strategy {
            ConsensusStrategy::Majority => Some(2 * agreeing > total),
            ConsensusStrategy::Unanimous => Some(agreeing >= total),
            _ => None,
        }),
{
    match strategy {
        ConsensusStrategy::Majority => Some((agreeing as u128) * 2 > total as u128),
        ConsensusStrategy::Unanimous => Some(agreeing >= total),
        _ => None,
    }
}

/// The views of the responses whose key differs from `key`, in order.
pub open spec fn dissent(rs: Seq<AgentResponse>, key: Seq<char>) -> Seq<AgentResponseView>
    decreases rs.len(),
{
    if rs.len() == 0 {
        Seq::empty()
    } else {
        let before = dissent(rs.drop_last(), key);
        if content_key(rs.last().content@) != key {
            before.push(rs.last()@)
        } else {
            before
        }
    }
}

/// The responses whose normalized content differs from `key`.
pub open spec fn differs_from(key: Seq<char>) -> spec_fn(AgentResponseView) -> bool {
    |v: AgentResponseView| content_key(v.content) != key
}

/// The dissenting responses are the input responses themselves, every
/// field kept (content, confidence, model and metadata), in their input
/// order: exactly those whose normalized content differs from the key.
pub proof fn law_dissent_keeps_each_response(rs: Seq<AgentResponse>, key: Seq<char>)
    ensures
        dissent(rs, key) == response_views(rs).filter(differs_from(key)),
    decreases rs.len(),
{
    reveal(Seq::filter);
    if rs.len() > 0 {
        law_dissent_keeps_each_response(rs.drop_last(), key);
        let vs = response_views(rs);
        let p = differs_from(key);
        assert(vs.len() == rs.len());
        assert(vs.drop_last() =~= response_views(rs.drop_last()));
        assert(vs.last() == rs.last()@);
        assert(p(vs.last()) == (content_key(rs.last().content@) != key));
        assert(vs.filter(p) == (if p(vs.last()) { vs.drop_last().filter(p).push(vs.last()) } else { vs.drop_last().filter(p) }));
    }
}

/// The views of a sequence of responses.
pub open spec fn response_views(rs: Seq<AgentResponse>) -> Seq<AgentResponseView> {
    rs.map_values(|r: AgentResponse| r@)
}

/// How many of the first `n` keys equal `key`.
pub open spec fn count_key(ks: Seq<Seq<char>>, key: Seq<char>, n: int) -> nat
    decreases n,
{
    if n <= 0 {
        0
    } else {
        count_key(ks, key, n - 1) + (if ks[n - 1] == key { 1nat } else { 0nat })
    }
}

/// How many of the indices in `t` are below `n`.
pub open spec fn count_below(t: Seq<usize>, n: int) -> nat
    decreases t.len(),
{
    if t.len() == 0 {
        0
    } else {
        count_below(t.drop_last(), n) + (if t.last() < n { 1nat } else { 0nat })
    }
}

proof fn lemma_dissent_len(rs: Seq<AgentResponse>, key: Seq<char>, n: int)
    requires
        0 <= n <= rs.len(),
    ensures
        dissent(rs.subrange(0, n), key).len() + count_key(response_keys(rs), key, n) == n,
    decreases n,
{
    if n > 0 {
        lemma_dissent_len(rs, key, n - 1);
        assert(rs.subrange(0, n).drop_last() =~= rs.subrange(0, n - 1));
        assert(rs.subrange(0, n).last() == rs[n - 1]);
    }
}

proof fn lemma_count_below_step(t: Seq<usize>, n: int)
    requires
        forall|a: int, b: int| 0 <= a < b < t.len() ==> #[trigger] t[a] < #[trigger] t[b],
    ensures
        count_below(t, n + 1) == count_below(t, n) + (if (exists|a: int| 0 <= a < t.len() && t[a] == n) { 1nat } else { 0nat }),
    decreases t.len(),
{
    if t.len() > 0 {
        let u = t.drop_last();
        lemma_count_below_step(u, n);
        if exists|a: int| 0 <= a < t.len() && t[a] == n {
            let a = choose|a: int| 0 <= a < t.len() && t[a] == n;
            if a < t.len() - 1 {
                assert(u[a] == n);
                assert(t[a] < t[t.len() - 1]);
            }
        }
        if exists|a: int| 0 <= a < u.len() && u[a] == n {
            let a = choose|a: int| 0 <= a < u.len() && u[a] == n;
            assert(t[a] == n);
        }
    }
}

proof fn lemma_count_below_all(t: Seq<usize>, n: int)
    requires
        forall|a: int| 0 <= a < t.len() ==> #[trigger] t[a] < n,
    ensures
        count_below(t, n) == t.len(),
    decreases t.len(),
{
    if t.len() > 0 {
        lemma_count_below_all(t.drop_last(), n);
    }
}

proof fn lemma_group_count(ks: Seq<Seq<char>>, gs: Seq<Seq<usize>>, g: int, n: int)
    requires
        is_grouping(ks, gs),
        0 <= g < gs.len(),
        0 <= n <= ks.len(),
    ensures
        count_key(ks, ks[gs[g][0] as int], n) == count_below(gs[g], n),
    decreases n,
{
    let t = gs[g];
    if n == 0 {
        lemma_count_below_zero(t);
    } else {
        lemma_group_count(ks, gs, g, n - 1);
        lemma_count_below_step(t, n - 1);
        let key = ks[t[0] as int];
        if ks[n - 1] == key {
            assert(in_some_group(gs, n - 1));
            let (h, a) = choose|h: int, a: int| 0 <= h < gs.len() && 0 <= a < gs[h].len() && #[trigger] gs[h][a] == n - 1;
            assert(ks[gs[h][a] as int] == ks[gs[h][0] as int]);
            if h != g {
                assert(ks[gs[h][0] as int] != ks[gs[g][0] as int]);
            }
            assert(t[a] == n - 1);
        } else {
            if exists|a: int| 0 <= a < t.len() && t[a] == n - 1 {
                let a = choose|a: int| 0 <= a < t.len() && t[a] == n - 1;
                assert(ks[gs[g][a] as int] == ks[gs[g][0] as int]);
            }
        }
    }
}

proof fn lemma_count_below_zero(t: Seq<usize>)
    ensures
        count_below(t, 0) == 0,
    decreases t.len(),
{
    if t.len() > 0 {
        lemma_count_below_zero(t.drop_last());
    }
}

/// The dissenting responses are exactly those outside the chosen group:
/// with the responses grouped by normalized content, the responses whose
/// key differs from a group's key are all the others.
pub proof fn law_dissent_is_rest_of_responses(rs: Seq<AgentResponse>, gs: Seq<Seq<usize>>, g: int)
    requires
        is_grouping(response_keys(rs), gs),
        0 <= g < gs.len(),
    ensures
        dissent(rs, response_keys(rs)[gs[g][0] as int]).len() + gs[g].len() == rs.len(),
{
    let ks = response_keys(rs);
    let key = ks[gs[g][0] as int];
    lemma_dissent_len(rs, key, rs.len() as int);
    assert(rs.subrange(0, rs.len() as int) =~= rs);
    lemma_group_count(ks, gs, g, rs.len() as int);
    lemma_count_below_all(gs[g], rs.len() as int);
}

/// Copies of the responses whose normalized content differs from `key`.
pub fn dissenting(responses: &[AgentResponse], key: &str) -> (r: Vec<AgentResponse>)
    ensures
        response_views(r@) == dissent(responses@, key@),
        response_views(r@) == response_views(responses@).filter(differs_from(key@)),
{
    let mut out: Vec<AgentResponse> = Vec::new();
    let mut i: usize = 0;
    while i < responses.len()
        invariant
            i <= responses@.len(),
            response_views(out@) == dissent(responses@.subrange(0, i as int), key@),
        decreases responses@.len() - i,
    {
        let ghost before = out@;
        let k = normalize(responses[i].content.as_str());
        proof {
            assert(responses@.subrange(0, i + 1).drop_last() =~= responses@.subrange(0, i as int));
        }
        if !crate::text::is_text(&k, key) {
            out.push(responses[i].duplicate());
            assert(response_views(out@) =~= response_views(before).push(responses@[i as int]@));
        }
        i = i + 1;
    }
    assert(responses@.subrange(0, responses@.len() as int) =~= responses@);
    proof {
        law_dissent_keeps_each_response(responses@, key@);
    }
    out
}

/// A consensus round needs at least one agent to ask.
pub fn require_agents(count: usize) -> (r: BastionResult<()>)
    ensures
        count == 0 ==> r matches Err(BastionError::NoAgents),
        count > 0 ==> r is Ok,
{
    if count == 0 {
        Err(BastionError::NoAgents)
    } else {
        Ok(())
    }
}

/// The valid responses of a consensus round and their ranked groups.
pub struct Tally {
    pub responses: Vec<AgentResponse>,
    pub groups: Vec<Vec<usize>>,
}

/// Groups the valid responses of a round. Without any valid response
/// there is no consensus.
pub fn tally(responses: Vec<AgentResponse>) -> (r: BastionResult<Tally>)
    ensures
        match r {
            Ok(t) => {
                &&& responses@.len() > 0
                &&& t.responses@ == responses@
                &&& is_grouping(response_keys(responses@), groups_view(t.groups@))
                &&& is_ranked(groups_view(t.groups@))
                &&& t.groups@.len() > 0
            },
            Err(BastionError::ConsensusFailure { reason }) => responses@.len() == 0 && reason@ == "no valid responses"@,
            Err(_) => false,
        },
{
    if responses.len() == 0 {
        return Err(BastionError::ConsensusFailure { reason: owned("no valid responses") });
    }
    let groups = group_by_content(responses.as_slice());
    proof {
        let gv = groups_view(groups@);
        assert(in_some_group(gv, 0));
    }
    Ok(Tally { responses, groups })
}

impl Tally {
    /// The response that speaks for group `g` (the group's first member),
    /// with copies of every response whose normalized content differs from it.
    pub fn winner(&self, g: usize) -> (r: (AgentResponse, Vec<AgentResponse>))
        requires
            g < self.groups@.len(),
            self.groups@[g as int]@.len() > 0,
            self.groups@[g as int]@[0] < self.responses@.len(),
        ensures
            r.0@ == self.responses@[self.groups@[g as int]@[0] as int]@,
            response_views(r.1@) == dissent(self.responses@, content_key(r.0@.content)),
            response_views(r.1@) == response_views(self.responses@).filter(differs_from(content_key(r.0@.content))),
    {
        let first = self.groups[g][0];
        let chosen = self.responses[first].duplicate();
        let key = normalize(chosen.content.as_str());
        let rest = dissenting(self.responses.as_slice(), key.as_str());
        (chosen, rest)
    }
}

} // verus!
