//! The insight registry, its one-time initialization with the built-in
//! insights, and the per-insight capability types.
use vstd::prelude::*;
use crate::insights::{InsightKind, kind_identifier};
use crate::text::{same_text, string_views};

verus! {

/// The first insight of `s` registered under `id`.
pub open spec fn registry_lookup(s: Seq<InsightKind>, id: Seq<char>) -> Option<InsightKind>
    decreases s.len(),
{
    if s.len() == 0 {
        None
    } else if kind_identifier(s[0]) == id {
        Some(s[0])
    } else {
        registry_lookup(s.drop_first(), id)
    }
}

/// Position of the first insight of `s` registered under `id`.
pub open spec fn registry_position(s: Seq<InsightKind>, id: Seq<char>) -> Option<int>
    decreases s.len(),
{
    if s.len() == 0 {
        None
    } else if kind_identifier(s[0]) == id {
        Some(0)
    } else {
        match registry_position(s.drop_first(), id) {
            Some(i) => Some(i + 1),
            None => None,
        }
    }
}

/// The table after registering `k`: it replaces the insight under the same
/// identifier, or is added at the end.
pub open spec fn registered(s: Seq<InsightKind>, k: InsightKind) -> Seq<InsightKind> {
    match registry_position(s, kind_identifier(k)) {
        Some(i) => s.update(i, k),
        None => s.push(k),
    }
}

/// No two insights of `s` share an identifier.
pub open spec fn identifiers_unique(s: Seq<InsightKind>) -> bool {
    forall|i: int, j: int|
        0 <= i < j < s.len() ==> kind_identifier(s[i]) != kind_identifier(s[j])
}

proof fn lemma_position_none(s: Seq<InsightKind>, id: Seq<char>)
    requires
        registry_position(s, id) is None,
    ensures
        forall|i: int| 0 <= i < s.len() ==> kind_identifier(s[i]) != id,
    decreases s.len(),
{
    if s.len() > 0 {
        lemma_position_none(s.drop_first(), id);
        assert forall|i: int| 0 <= i < s.len() implies kind_identifier(s[i]) != id by {
            if i > 0 {
                assert(s[i] == s.drop_first()[i - 1]);
            }
        }
    }
}

/// Mapping from insight identifier to insight; each identifier is
/// registered at most once.
pub struct InsightRegistry {
    insights: Vec<InsightKind>,
}

impl View for InsightRegistry {
    type V = Seq<InsightKind>;

    closed spec fn view(&self) -> Seq<InsightKind> {
        self.insights@
    }
}

proof fn lemma_position_in_range(s: Seq<InsightKind>, id: Seq<char>)
    ensures
        match registry_position(s, id) {
            Some(i) => 0 <= i < s.len() && kind_identifier(s[i]) == id && registry_lookup(s, id)
                == Some(s[i]),
            None => registry_lookup(s, id) is None,
        },
    decreases s.len(),
{
    if s.len() > 0 && kind_identifier(s[0]) != id {
        lemma_position_in_range(s.drop_first(), id);
    }
}

fn position_of(insights: &Vec<InsightKind>, id: &str) -> (r: Option<usize>)
    ensures
        match registry_position(insights@, id@) {
            Some(i) => r == Some(i as usize) && 0 <= i < insights.len(),
            None => r is None,
        },
{
    proof { lemma_position_in_range(insights@, id@); }
    let ghost s = insights@;
    let mut i: usize = 0;
    assert(s.subrange(0, s.len() as int) =~= s);
    while i < insights.len()
        invariant
            i <= insights.len(),
            s == insights@,
            registry_position(s, id@) == match registry_position(
                s.subrange(i as int, s.len() as int),
                id@,
            ) {
                Some(j) => Some(j + i),
                None => None::<int>,
            },
        decreases insights.len() - i,
    {
        let ghost rest = s.subrange(i as int, s.len() as int);
        assert(rest.drop_first() =~= s.subrange(i + 1, s.len() as int));
        if same_text(insights[i].identifier(), id) {
            return Some(i);
        }
        i = i + 1;
    }
    None
}

impl InsightRegistry {
    /// An empty registry.
    pub fn new() -> (r: InsightRegistry)
        ensures
            r@ == Seq::<InsightKind>::empty(),
            identifiers_unique(r@),
    {
        InsightRegistry { insights: Vec::new() }
    }

    /// Registers an insight under its identifier, replacing the one
    /// registered there before.
    pub fn register(&mut self, insight: InsightKind)
        ensures
            final(self)@ == registered(old(self)@, insight),
            identifiers_unique(old(self)@) ==> identifiers_unique(final(self)@),
    {
        let ghost s = self.insights@;
        match position_of(&self.insights, insight.identifier()) {
            Some(i) => {
                proof { lemma_position_in_range(self.insights@, kind_identifier(insight)); }
                self.insights.set(i, insight);
                assert(self.insights@ == s.update(i as int, insight));
            },
            None => {
                proof { lemma_position_none(s, kind_identifier(insight)); }
                self.insights.push(insight);
                assert(self.insights@ == s.push(insight));
            },
        }
    }

    /// The insight registered under `identifier`.
    pub fn get(&self, identifier: &str) -> (r: Option<InsightKind>)
        ensures
            r == registry_lookup(self@, identifier@),
    {
        proof { lemma_position_in_range(self@, identifier@); }
        match position_of(&self.insights, identifier) {
            Some(i) => Some(self.insights[i]),
            None => None,
        }
    }

    /// The identifiers of all registered insights.
    pub fn list_identifiers(&self) -> (r: Vec<String>)
        ensures
            string_views(r@) == self@.map_values(|k: InsightKind| kind_identifier(k)),
    {
        let mut out: Vec<String> = Vec::new();
        let mut i: usize = 0;
        while i < self.insights.len()
            invariant
                i <= self.insights.len(),
                string_views(out@) =~= self.insights@.subrange(0, i as int).map_values(
                    |k: InsightKind| kind_identifier(k),
                ),
            decreases self.insights.len() - i,
        {
            let ghost before = out@;
            out.push(String::from_str(self.insights[i].identifier()));
            assert(string_views(out@) =~= string_views(before).push(
                kind_identifier(self.insights@[i as int]),
            ));
            i = i + 1;
        }
        assert(self.insights@.subrange(0, self.insights.len() as int) =~= self.insights@);
        out
    }

    /// Whether an insight is registered under `identifier`.
    pub fn is_registered(&self, identifier: &str) -> (r: bool)
        ensures
            r == registry_lookup(self@, identifier@) is Some,
    {
        self.get(identifier).is_some()
    }
}

impl Default for InsightRegistry {
    fn default() -> (r: Self)
        ensures
            r@ == Seq::<InsightKind>::empty(),
            identifiers_unique(r@),
    {
        InsightRegistry::new()
    }
}

/// The built-in insights in registration order.
pub open spec fn builtin_insights() -> Seq<InsightKind> {
    seq![
        InsightKind::ProfitBySymbol,
        InsightKind::TradeEntries,
        InsightKind::AllEntries,
        InsightKind::TradeEntriesWithBalance,
        InsightKind::BalanceEntries,
        InsightKind::TotalBalance,
    ]
}

proof fn lemma_identifiers_distinct()
    ensures
        forall|a: InsightKind, b: InsightKind| a != b ==> kind_identifier(a) != kind_identifier(b),
{
    reveal_strlit("deals.all_entries");
    reveal_strlit("deals.balance_entries");
    reveal_strlit("deals.profit_by_symbol");
    reveal_strlit("deals.total_balance");
    reveal_strlit("deals.trade_entries");
    reveal_strlit("deals.trade_entries_with_balance");
    assert forall|a: InsightKind, b: InsightKind| a != b implies kind_identifier(a)
        != kind_identifier(b) by {
        if kind_identifier(a) == kind_identifier(b) {
            assert(kind_identifier(a).len() == kind_identifier(b).len());
            assert(kind_identifier(a)[6] == kind_identifier(b)[6]);
            assert(kind_identifier(a)[7] == kind_identifier(b)[7]);
            assert(kind_identifier(a)[12] == kind_identifier(b)[12]);
        }
    }
}

proof fn lemma_not_registered(s: Seq<InsightKind>, k: InsightKind)
    requires
        !s.contains(k),
        forall|a: InsightKind, b: InsightKind| a != b ==> kind_identifier(a) != kind_identifier(b),
    ensures
        registry_position(s, kind_identifier(k)) is None,
    decreases s.len(),
{
    if s.len() > 0 {
        assert(s[0] != k);
        assert(!s.drop_first().contains(k)) by {
            if s.drop_first().contains(k) {
                let i = choose|i: int| 0 <= i < s.drop_first().len() && s.drop_first()[i] == k;
                assert(s[i + 1] == k);
            }
        }
        lemma_not_registered(s.drop_first(), k);
    }
}

/// The registry with the built-in insights.
pub fn builtin_registry() -> (r: InsightRegistry)
    ensures
        r@ == builtin_insights(),
        identifiers_unique(r@),
{
    proof { lemma_identifiers_distinct(); }
    let mut registry = InsightRegistry::new();
    let order = [
        InsightKind::ProfitBySymbol,
        InsightKind::TradeEntries,
        InsightKind::AllEntries,
        InsightKind::TradeEntriesWithBalance,
        InsightKind::BalanceEntries,
        InsightKind::TotalBalance,
    ];
    let ghost b = builtin_insights();
    assert(order@ =~= b);
    let mut i: usize = 0;
    while i < 6
        invariant
            i <= 6,
            order@ == b,
            b == builtin_insights(),
            registry@ == b.subrange(0, i as int),
            identifiers_unique(registry@),
            forall|x: InsightKind, y: InsightKind| x != y ==> kind_identifier(x) != kind_identifier(y),
        decreases 6 - i,
    {
        let k = order[i];
        proof {
            assert(!b.subrange(0, i as int).contains(k)) by {
                if b.subrange(0, i as int).contains(k) {
                    let j = choose|j: int| 0 <= j < i && b.subrange(0, i as int)[j] == k;
                    assert(b[j] == b[i as int]);
                }
            }
            lemma_not_registered(b.subrange(0, i as int), k);
        }
        registry.register(k);
        assert(registry@ =~= b.subrange(0, i + 1));
        i = i + 1;
    }
    assert(b.subrange(0, 6) =~= b);
    registry
}

/// The process-wide home of the registry: empty until initialized, then
/// holding the built-in insights for the rest of the process.
pub struct RegistrySlot {
    registry: Option<InsightRegistry>,
}

impl RegistrySlot {
    /// A slot not yet initialized.
    pub fn new() -> (r: RegistrySlot)
        ensures
            !r.is_initialized(),
    {
        RegistrySlot { registry: None }
    }

    pub closed spec fn is_initialized(&self) -> bool {
        self.registry is Some
    }

    /// The registered insights, once initialized.
    pub closed spec fn contents(&self) -> Seq<InsightKind> {
        match self.registry {
            Some(r) => r@,
            None => Seq::empty(),
        }
    }

    /// Whether initialization has happened.
    pub fn initialized(&self) -> (r: bool)
        ensures
            r == self.is_initialized(),
    {
        self.registry.is_some()
    }
}

/// Initializes the registry with the built-in insights. Only the first call
/// builds it; later calls leave it as it is.
pub fn initialize_registry(slot: &mut RegistrySlot)
    ensures
        final(slot).is_initialized(),
        old(slot).is_initialized() ==> final(slot).contents() == old(slot).contents(),
        !old(slot).is_initialized() ==> final(slot).contents() == builtin_insights(),
        !old(slot).is_initialized() ==> identifiers_unique(final(slot).contents()),
{
    if slot.registry.is_none() {
        slot.registry = Some(builtin_registry());
    }
}

/// The registry. Using it before initialization is a programming error,
/// which callers must rule out.
pub fn get_registry(slot: &RegistrySlot) -> (r: &InsightRegistry)
    requires
        slot.is_initialized(),
    ensures
        r@ == slot.contents(),
{
    match &slot.registry {
        Some(r) => r,
        None => unreached(),
    }
}

/// The insight registered under `identifier`; valid only after
/// initialization.
pub fn get_insight(slot: &RegistrySlot, identifier: &str) -> (r: Option<InsightKind>)
    requires
        slot.is_initialized(),
    ensures
        r == registry_lookup(slot.contents(), identifier@),
{
    get_registry(slot).get(identifier)
}

/// After initialization, looking up "deals.total_balance" gives an insight
/// whose identifier is that key.
pub proof fn lemma_total_balance_registered()
    ensures
        registry_lookup(builtin_insights(), "deals.total_balance"@) == Some(InsightKind::TotalBalance),
        kind_identifier(InsightKind::TotalBalance) == "deals.total_balance"@,
{
    lemma_identifiers_distinct();
    let b = builtin_insights();
    let id = "deals.total_balance"@;
    assert(b.drop_first().drop_first().drop_first().drop_first().drop_first() =~= seq![
        InsightKind::TotalBalance,
    ]);
    assert(registry_lookup(b.drop_first().drop_first().drop_first().drop_first().drop_first(), id)
        == Some(InsightKind::TotalBalance));
    assert(registry_lookup(b.drop_first().drop_first().drop_first().drop_first(), id) == Some(
        InsightKind::TotalBalance,
    ));
    assert(registry_lookup(b.drop_first().drop_first().drop_first(), id) == Some(
        InsightKind::TotalBalance,
    ));
    assert(registry_lookup(b.drop_first().drop_first(), id) == Some(InsightKind::TotalBalance));
    assert(registry_lookup(b.drop_first(), id) == Some(InsightKind::TotalBalance));
}

/// A slot that initialization filled with the built-in insights serves
/// "deals.total_balance" with an insight whose identifier is that key.
pub proof fn lemma_lookup_after_initialize(slot: RegistrySlot)
    requires
        slot.is_initialized(),
        slot.contents() == builtin_insights(),
    ensures
        registry_lookup(slot.contents(), "deals.total_balance"@) matches Some(k) && kind_identifier(k)
            == "deals.total_balance"@,
{
    lemma_total_balance_registered();
}

/// Capability of the all-entries insight.
#[derive(Clone, Copy, Debug)]
pub struct AllEntriesInsight;

/// Capability of the balance-entries insight.
#[derive(Clone, Copy, Debug)]
pub struct BalanceEntriesInsight;

/// Capability of the profit-by-symbol insight.
#[derive(Clone, Copy, Debug)]
pub struct ProfitBySymbolInsight;

/// Capability of the total-balance insight.
#[derive(Clone, Copy, Debug)]
pub struct TotalBalanceInsight;

/// Capability of the trade-entries insight.
#[derive(Clone, Copy, Debug)]
pub struct TradeEntriesInsight;

/// Capability of the trade-entries-with-balance insight.
#[derive(Clone, Copy, Debug)]
pub struct TradeEntriesWithBalanceInsight;

impl AllEntriesInsight {
    pub fn new() -> Self {
        AllEntriesInsight
    }

    pub fn kind(&self) -> (r: InsightKind)
        ensures
            r == InsightKind::AllEntries,
    {
        InsightKind::AllEntries
    }
}

impl BalanceEntriesInsight {
    pub fn new() -> Self {
        BalanceEntriesInsight
    }

    pub fn kind(&self) -> (r: InsightKind)
        ensures
            r == InsightKind::BalanceEntries,
    {
        InsightKind::BalanceEntries
    }
}

impl ProfitBySymbolInsight {
    pub fn new() -> Self {
        ProfitBySymbolInsight
    }

    pub fn kind(&self) -> (r: InsightKind)
        ensures
            r == InsightKind::ProfitBySymbol,
    {
        InsightKind::ProfitBySymbol
    }
}

impl TotalBalanceInsight {
    pub fn new() -> Self {
        TotalBalanceInsight
    }

    pub fn kind(&self) -> (r: InsightKind)
        ensures
            r == InsightKind::TotalBalance,
    {
        InsightKind::TotalBalance
    }
}

impl TradeEntriesInsight {
    pub fn new() -> Self {
        TradeEntriesInsight
    }

    pub fn kind(&self) -> (r: InsightKind)
        ensures
            r == InsightKind::TradeEntries,
    {
        InsightKind::TradeEntries
    }
}

impl TradeEntriesWithBalanceInsight {
    pub fn new() -> Self {
        TradeEntriesWithBalanceInsight
    }

    pub fn kind(&self) -> (r: InsightKind)
        ensures
            r == InsightKind::TradeEntriesWithBalance,
    {
        InsightKind::TradeEntriesWithBalance
    }
}

} // verus!
