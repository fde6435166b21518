//! Delivery classes, acknowledgement boundaries and provider class policies.

use vstd::prelude::*;

verus! {

/// Delivery/durability class of a fabric interaction, from the cheapest to
/// the strongest.
#[derive(Debug, Clone, Copy, PartialEq, Eq, PartialOrd, Ord, Hash, Structural)]
pub enum DeliveryClass {
    /// Best-effort interactive traffic.
    EphemeralInteractive,
    /// Durable, ordered delivery.
    DurableOrdered,
    /// Delivery tracked by an obligation.
    ObligationBacked,
    /// Obligation-backed delivery that survives migration.
    MobilitySafe,
    /// Delivery with forensic replay evidence.
    ForensicReplayable,
}

/// Rank of a delivery class in strength order.
pub open spec fn class_rank(c: DeliveryClass) -> nat {
    match c {
        DeliveryClass::EphemeralInteractive => 0,
        DeliveryClass::DurableOrdered => 1,
        DeliveryClass::ObligationBacked => 2,
        DeliveryClass::MobilitySafe => 3,
        DeliveryClass::ForensicReplayable => 4,
    }
}

impl DeliveryClass {
    /// Rank of the class in strength order.
    pub fn rank(&self) -> (r: u8)
        ensures
            r == class_rank(*self),
    {
        match self {
            DeliveryClass::EphemeralInteractive => 0,
            DeliveryClass::DurableOrdered => 1,
            DeliveryClass::ObligationBacked => 2,
            DeliveryClass::MobilitySafe => 3,
            DeliveryClass::ForensicReplayable => 4,
        }
    }
}

/// Acknowledgement boundary of a delivery, from the earliest to the latest.
#[derive(Debug, Clone, Copy, PartialEq, Eq, PartialOrd, Ord, Hash, Structural)]
pub enum AckKind {
    /// Accepted by the fabric.
    Accepted,
    /// Committed to the stream.
    Committed,
    /// Recoverable after failure.
    Recoverable,
    /// Served by the callee.
    Served,
    /// Received by the caller.
    Received,
}

/// Rank of an acknowledgement boundary, from the earliest.
pub open spec fn ack_rank(a: AckKind) -> nat {
    match a {
        AckKind::Accepted => 0,
        AckKind::Committed => 1,
        AckKind::Recoverable => 2,
        AckKind::Served => 3,
        AckKind::Received => 4,
    }
}

impl AckKind {
    /// Rank of the boundary, from the earliest.
    pub fn rank(&self) -> (r: u8)
        ensures
            r == ack_rank(*self),
    {
        match self {
            AckKind::Accepted => 0,
            AckKind::Committed => 1,
            AckKind::Recoverable => 2,
            AckKind::Served => 3,
            AckKind::Received => 4,
        }
    }
}

/// The earliest boundary a delivery class can honestly acknowledge:
/// acceptance for interactive traffic, the stream commit for durable
/// ordered delivery, service for obligation-backed delivery, and receipt
/// by the caller for the mobility-safe and forensic classes.
pub open spec fn minimum_ack_spec(c: DeliveryClass) -> AckKind {
    match c {
        DeliveryClass::EphemeralInteractive => AckKind::Accepted,
        DeliveryClass::DurableOrdered => AckKind::Committed,
        DeliveryClass::ObligationBacked => AckKind::Served,
        DeliveryClass::MobilitySafe => AckKind::Received,
        DeliveryClass::ForensicReplayable => AckKind::Received,
    }
}

impl DeliveryClass {
    /// The earliest boundary the class can honestly acknowledge.
    pub fn minimum_ack(self) -> (a: AckKind)
        ensures
            a == minimum_ack_spec(self),
    {
        match self {
            DeliveryClass::EphemeralInteractive => AckKind::Accepted,
            DeliveryClass::DurableOrdered => AckKind::Committed,
            DeliveryClass::ObligationBacked => AckKind::Served,
            DeliveryClass::MobilitySafe => AckKind::Received,
            DeliveryClass::ForensicReplayable => AckKind::Received,
        }
    }
}

/// Rejection of a caller's class request or of a policy declaration.
#[derive(Debug, Clone, Copy, PartialEq, Eq, Structural)]
pub enum DeliveryClassPolicyError {
    /// The policy's default class is not among its admissible classes.
    DefaultClassNotAdmissible {
        /// Declared default class.
        default_class: DeliveryClass,
    },
    /// The caller asked for a class the provider does not admit.
    RequestedClassNotAdmissible {
        /// Class the caller asked for.
        requested: DeliveryClass,
        /// Provider's default class.
        default_class: DeliveryClass,
    },
}

/// Provider-admitted delivery classes with a default choice.
#[derive(Debug, Clone, PartialEq, Eq)]
pub struct DeliveryClassPolicy {
    default_class: DeliveryClass,
    admissible: Vec<DeliveryClass>,
}

/// Classes in strictly ascending strength order.
pub open spec fn strictly_ascending(s: Seq<DeliveryClass>) -> bool {
    forall|i: int, j: int| 0 <= i < j < s.len() ==> class_rank(#[trigger] s[i]) < class_rank(#[trigger] s[j])
}

impl DeliveryClassPolicy {
    /// The default class.
    pub closed spec fn default_spec(self) -> DeliveryClass {
        self.default_class
    }

    /// The admissible classes, ascending.
    pub closed spec fn classes(self) -> Seq<DeliveryClass> {
        self.admissible@
    }

    /// Admissible classes ascend strictly and include the default.
    pub closed spec fn wf(self) -> bool {
        strictly_ascending(self.admissible@) && self.admissible@.contains(self.default_class)
    }

    /// A policy admitting the given classes (in any order, repeats
    /// ignored) with `default_class` as default; refused when the default
    /// is not admitted.
    pub fn new<const N: usize>(default_class: DeliveryClass, admissible: [DeliveryClass; N]) -> (r: Result<Self, DeliveryClassPolicyError>)
        ensures
            match r {
                Ok(p) => {
                    &&& p.wf()
                    &&& p.default_spec() == default_class
                    &&& forall|c: DeliveryClass| #[trigger] p.classes().contains(c) <==> admissible@.contains(c)
                },
                Err(e) => {
                    &&& !admissible@.contains(default_class)
                    &&& e == DeliveryClassPolicyError::DefaultClassNotAdmissible { default_class }
                },
            },
    {
        let mut classes: Vec<DeliveryClass> = Vec::new();
        let all = [
            DeliveryClass::EphemeralInteractive,
            DeliveryClass::DurableOrdered,
            DeliveryClass::ObligationBacked,
            DeliveryClass::MobilitySafe,
            DeliveryClass::ForensicReplayable,
        ];
        let mut k: usize = 0;
        while k < 5
            invariant
                k <= 5,
                all@ == seq![
                    DeliveryClass::EphemeralInteractive,
                    DeliveryClass::DurableOrdered,
                    DeliveryClass::ObligationBacked,
                    DeliveryClass::MobilitySafe,
                    DeliveryClass::ForensicReplayable,
                ],
                strictly_ascending(classes@),
                forall|i: int| 0 <= i < classes@.len() ==> class_rank(#[trigger] classes@[i]) < k,
                forall|c: DeliveryClass| class_rank(c) < k ==> (#[trigger] classes@.contains(c) <==> admissible@.contains(c)),
                forall|c: DeliveryClass| class_rank(c) >= k ==> !(#[trigger] classes@.contains(c)),
            decreases 5 - k,
        {
            let c = all[k];
            assert(class_rank(c) == k);
            let mut found = false;
            let mut i: usize = 0;
            while i < N
                invariant
                    i <= N,
                    admissible@.len() == N,
                    found <==> exists|j: int| 0 <= j < i && #[trigger] admissible@[j] == c,
                decreases N - i,
            {
                if admissible[i] == c {
                    found = true;
                }
                i = i + 1;
            }
            let ghost before = classes@;
            if found {
                classes.push(c);
                assert forall|d: DeliveryClass| class_rank(d) < k + 1 implies
                    (#[trigger] classes@.contains(d) <==> admissible@.contains(d)) by {
                    if d == c {
                        assert(classes@[classes@.len() - 1] == c);
                        let j = choose|j: int| 0 <= j < N && admissible@[j] == c;
                        assert(admissible@[j] == c);
                    } else {
                        if classes@.contains(d) {
                            let j = choose|j: int| 0 <= j < classes@.len() && classes@[j] == d;
                            assert(before[j] == d);
                        }
                        if before.contains(d) {
                            let j = choose|j: int| 0 <= j < before.len() && before[j] == d;
                            assert(classes@[j] == d);
                        }
                    }
                }
                assert forall|d: DeliveryClass| class_rank(d) >= k + 1 implies !(#[trigger] classes@.contains(d)) by {
                    if classes@.contains(d) {
                        let j = choose|j: int| 0 <= j < classes@.len() && classes@[j] == d;
                        if j < before.len() {
                            assert(before[j] == d);
                        }
                    }
                }
            } else {
                assert(!admissible@.contains(c)) by {
                    if admissible@.contains(c) {
                        let j = choose|j: int| 0 <= j < admissible@.len() && admissible@[j] == c;
                        assert(admissible@[j] == c);
                    }
                }
            }
            k = k + 1;
        }
        let mut has_default = false;
        let mut i: usize = 0;
        while i < classes.len()
            invariant
                i <= classes.len(),
                has_default <==> exists|j: int| 0 <= j < i && #[trigger] classes@[j] == default_class,
            decreases classes.len() - i,
        {
            if classes[i] == default_class {
                has_default = true;
            }
            i = i + 1;
        }
        assert(class_rank(default_class) < 5);
        if !has_default {
            assert(!classes@.contains(default_class));
            return Err(DeliveryClassPolicyError::DefaultClassNotAdmissible { default_class });
        }
        Ok(DeliveryClassPolicy { default_class, admissible: classes })
    }

    /// The default class.
    pub fn default_class(&self) -> (c: DeliveryClass)
        ensures
            c == self.default_spec(),
    {
        self.default_class
    }

    /// The admissible classes, ascending.
    pub fn admissible_classes(&self) -> (s: &[DeliveryClass])
        ensures
            s@ == self.classes(),
    {
        self.admissible.as_slice()
    }

    /// Whether `class` is admitted.
    pub fn admits(&self, class: DeliveryClass) -> (b: bool)
        ensures
            b == self.classes().contains(class),
    {
        let mut i: usize = 0;
        while i < self.admissible.len()
            invariant
                i <= self.admissible.len(),
                forall|j: int| 0 <= j < i ==> #[trigger] self.admissible@[j] != class,
            decreases self.admissible.len() - i,
        {
            if self.admissible[i] == class {
                assert(self.classes()[i as int] == class);
                return true;
            }
            i = i + 1;
        }
        false
    }

    /// The class a caller gets: the default when none is requested, the
    /// requested class when admitted, and otherwise a refusal.
    pub fn select_for_caller(&self, requested: Option<DeliveryClass>) -> (r: Result<DeliveryClass, DeliveryClassPolicyError>)
        ensures
            match requested {
                None => r == Ok::<DeliveryClass, DeliveryClassPolicyError>(self.default_spec()),
                Some(c) => if self.classes().contains(c) {
                    r == Ok::<DeliveryClass, DeliveryClassPolicyError>(c)
                } else {
                    r == Err::<DeliveryClass, DeliveryClassPolicyError>(
                        DeliveryClassPolicyError::RequestedClassNotAdmissible { requested: c, default_class: self.default_spec() })
                },
            },
    {
        match requested {
            None => Ok(self.default_class),
            Some(c) => {
                if self.admits(c) {
                    Ok(c)
                } else {
                    Err(DeliveryClassPolicyError::RequestedClassNotAdmissible { requested: c, default_class: self.default_class })
                }
            },
        }
    }
}

} // verus!
