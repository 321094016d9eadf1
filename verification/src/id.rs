//! Display identities and the fixed order in which the library walks them.
//!
//! An identity is opaque to callers: it can be compared for equality and
//! hashed. The order defined here has no meaning beyond being total and
//! stable; it exists so that a set of displays has one canonical sequence.

use vstd::prelude::*;

verus! {

/// The identity that macOS gives a display: a `CGDirectDisplayID`.
pub type MacOSDisplayId = u32;

/// The identity that Windows gives a display: the wide characters of its
/// device path, without a terminating NUL.
#[derive(Debug, Hash)]
pub struct WindowsDisplayId {
    name: Vec<u16>,
}

/// The platform's own representation behind a [`DisplayId`].
#[derive(Debug, Hash)]
pub enum PlatformDisplayId {
    MacOS(MacOSDisplayId),
    Windows(WindowsDisplayId),
}

/// A unique identifier for a display.
///
/// It is stable while the physical display stays connected; the operating
/// system may hand the same value out again after the display has left.
#[derive(Debug, Hash)]
pub struct DisplayId(pub PlatformDisplayId);

/// What a [`DisplayId`] is, as a mathematical value.
pub enum DisplayIdView {
    MacOS(u32),
    Windows(Seq<u16>),
}

/// Whether `a` comes before `b` when both are read from index `i` on and
/// agree before it: the shorter of two equal beginnings first, else the one
/// with the smaller unit at the first place where they differ.
pub open spec fn wide_lt_from(a: Seq<u16>, b: Seq<u16>, i: int) -> bool
    decreases a.len() - i,
{
    if i < 0 || i >= b.len() {
        false
    } else if i >= a.len() {
        true
    } else if a[i] != b[i] {
        a[i] < b[i]
    } else {
        wide_lt_from(a, b, i + 1)
    }
}

/// Lexicographic order on device paths.
pub open spec fn wide_lt(a: Seq<u16>, b: Seq<u16>) -> bool {
    wide_lt_from(a, b, 0)
}

/// The canonical strict order on identities: every macOS identity before
/// every Windows identity, numbers by size, device paths lexicographically.
pub open spec fn id_lt(a: DisplayIdView, b: DisplayIdView) -> bool {
    match (a, b) {
        (DisplayIdView::MacOS(x), DisplayIdView::MacOS(y)) => x < y,
        (DisplayIdView::MacOS(_), DisplayIdView::Windows(_)) => true,
        (DisplayIdView::Windows(_), DisplayIdView::MacOS(_)) => false,
        (DisplayIdView::Windows(s), DisplayIdView::Windows(t)) => wide_lt(s, t),
    }
}

proof fn lemma_wide_lt_irreflexive(a: Seq<u16>, i: int)
    ensures
        !wide_lt_from(a, a, i),
    decreases a.len() - i,
{
    if 0 <= i < a.len() {
        lemma_wide_lt_irreflexive(a, i + 1);
    }
}

proof fn lemma_wide_lt_transitive(a: Seq<u16>, b: Seq<u16>, c: Seq<u16>, i: int)
    requires
        wide_lt_from(a, b, i),
        wide_lt_from(b, c, i),
    ensures
        wide_lt_from(a, c, i),
    decreases a.len() - i,
{
    if i < a.len() && a[i] == b[i] && b[i] == c[i] {
        lemma_wide_lt_transitive(a, b, c, i + 1);
    }
}

proof fn lemma_wide_lt_total(a: Seq<u16>, b: Seq<u16>, i: int)
    requires
        0 <= i <= a.len(),
        i <= b.len(),
        forall|j: int| 0 <= j < i ==> a[j] == b[j],
        !wide_lt_from(a, b, i),
        !wide_lt_from(b, a, i),
    ensures
        a =~= b,
    decreases a.len() - i,
{
    if i < a.len() && i < b.len() {
        lemma_wide_lt_total(a, b, i + 1);
    }
}

/// No identity comes before itself.
pub proof fn lemma_id_lt_irreflexive(a: DisplayIdView)
    ensures
        !id_lt(a, a),
{
    if let DisplayIdView::Windows(s) = a {
        lemma_wide_lt_irreflexive(s, 0);
    }
}

/// The order is transitive.
pub proof fn lemma_id_lt_transitive(a: DisplayIdView, b: DisplayIdView, c: DisplayIdView)
    requires
        id_lt(a, b),
        id_lt(b, c),
    ensures
        id_lt(a, c),
{
    if let (DisplayIdView::Windows(s), DisplayIdView::Windows(t), DisplayIdView::Windows(u)) = (
        a,
        b,
        c,
    ) {
        lemma_wide_lt_transitive(s, t, u, 0);
    }
}

/// Of two identities never both come before the other.
pub proof fn lemma_id_lt_asymmetric(a: DisplayIdView, b: DisplayIdView)
    requires
        id_lt(a, b),
    ensures
        !id_lt(b, a),
        a != b,
{
    lemma_id_lt_irreflexive(a);
    if id_lt(b, a) {
        lemma_id_lt_transitive(a, b, a);
    }
}

/// The order is total: two identities of which neither comes first are one.
pub proof fn lemma_id_lt_total(a: DisplayIdView, b: DisplayIdView)
    requires
        !id_lt(a, b),
        !id_lt(b, a),
    ensures
        a == b,
{
    if let (DisplayIdView::Windows(s), DisplayIdView::Windows(t)) = (a, b) {
        lemma_wide_lt_total(s, t, 0);
    }
}

/// How two identities stand to each other in the canonical order.
#[derive(Debug, Clone, Copy, PartialEq, Eq, Structural)]
pub enum Position {
    Before,
    Same,
    After,
}

/// What [`Position`] two identities have, as a mathematical value.
pub open spec fn position_of(a: DisplayIdView, b: DisplayIdView) -> Position {
    if id_lt(a, b) {
        Position::Before
    } else if id_lt(b, a) {
        Position::After
    } else {
        Position::Same
    }
}

fn wide_position(a: &Vec<u16>, b: &Vec<u16>) -> (r: Position)
    ensures
        r == position_of(DisplayIdView::Windows(a@), DisplayIdView::Windows(b@)),
        r == Position::Same <==> a@ == b@,
{
    let mut i: usize = 0;
    while i < a.len() && i < b.len()
        invariant
            0 <= i <= a.len(),
            i <= b.len(),
            forall|j: int| 0 <= j < i ==> a@[j] == b@[j],
            wide_lt(a@, b@) == wide_lt_from(a@, b@, i as int),
            wide_lt(b@, a@) == wide_lt_from(b@, a@, i as int),
        decreases a.len() - i,
    {
        if a[i] < b[i] {
            proof {
                lemma_id_lt_asymmetric(DisplayIdView::Windows(a@), DisplayIdView::Windows(b@));
            }
            return Position::Before;
        }
        if b[i] < a[i] {
            proof {
                lemma_id_lt_asymmetric(DisplayIdView::Windows(b@), DisplayIdView::Windows(a@));
            }
            return Position::After;
        }
        i += 1;
    }
    if i < b.len() {
        proof {
            lemma_id_lt_asymmetric(DisplayIdView::Windows(a@), DisplayIdView::Windows(b@));
        }
        Position::Before
    } else if i < a.len() {
        proof {
            lemma_id_lt_asymmetric(DisplayIdView::Windows(b@), DisplayIdView::Windows(a@));
        }
        Position::After
    } else {
        proof {
            assert(a@ =~= b@);
            lemma_id_lt_irreflexive(DisplayIdView::Windows(a@));
        }
        Position::Same
    }
}

impl WindowsDisplayId {
    pub closed spec fn view(&self) -> Seq<u16> {
        self.name@
    }

    /// Creates an identity from the wide characters of a device path.
    pub fn new(name: Vec<u16>) -> (r: Self)
        ensures
            r@ == name@,
    {
        WindowsDisplayId { name }
    }

    /// Whether both are the same device path.
    pub fn same(&self, other: &WindowsDisplayId) -> (r: bool)
        ensures
            r == (self@ == other@),
    {
        wide_position(&self.name, &other.name) == Position::Same
    }

    /// The device path, also called the device identification string, as
    /// wide characters: for instance those of `\\.\DISPLAY1`.
    pub fn device_name(&self) -> (r: &Vec<u16>)
        ensures
            r@ == self@,
    {
        &self.name
    }
}

impl Clone for WindowsDisplayId {
    fn clone(&self) -> (r: Self)
        ensures
            r@ == self@,
    {
        let mut name: Vec<u16> = Vec::new();
        let mut i: usize = 0;
        while i < self.name.len()
            invariant
                0 <= i <= self.name.len(),
                name@ == self.name@.take(i as int),
            decreases self.name.len() - i,
        {
            name.push(self.name[i]);
            assert(self.name@.take(i + 1) =~= self.name@.take(i as int).push(self.name@[i as int]));
            i += 1;
        }
        assert(self.name@.take(i as int) =~= self.name@);
        WindowsDisplayId { name }
    }
}

impl PlatformDisplayId {
    pub open spec fn view(&self) -> DisplayIdView {
        match self {
            PlatformDisplayId::MacOS(n) => DisplayIdView::MacOS(*n),
            PlatformDisplayId::Windows(w) => DisplayIdView::Windows(w@),
        }
    }
}

impl Clone for PlatformDisplayId {
    fn clone(&self) -> (r: Self)
        ensures
            r@ == self@,
    {
        match self {
            PlatformDisplayId::MacOS(n) => PlatformDisplayId::MacOS(*n),
            PlatformDisplayId::Windows(w) => PlatformDisplayId::Windows(w.clone()),
        }
    }
}

impl DisplayId {
    pub open spec fn view(&self) -> DisplayIdView {
        self.0@
    }

    /// The identity of the macOS display with the given number.
    pub fn from_macos(id: MacOSDisplayId) -> (r: Self)
        ensures
            r@ == DisplayIdView::MacOS(id),
    {
        DisplayId(PlatformDisplayId::MacOS(id))
    }

    /// The identity of the Windows display with the given device path.
    pub fn from_windows(id: WindowsDisplayId) -> (r: Self)
        ensures
            r@ == DisplayIdView::Windows(id@),
    {
        DisplayId(PlatformDisplayId::Windows(id))
    }

    /// Returns the Windows-specific display id, if this is one.
    pub fn windows_id(&self) -> (r: Option<&WindowsDisplayId>)
        ensures
            match r {
                Some(w) => self@ == DisplayIdView::Windows(w@),
                None => self@ is MacOS,
            },
    {
        match &self.0 {
            PlatformDisplayId::Windows(w) => Some(w),
            PlatformDisplayId::MacOS(_) => None,
        }
    }

    /// Returns the macOS-specific display id, if this is one.
    pub fn macos_id(&self) -> (r: Option<MacOSDisplayId>)
        ensures
            match r {
                Some(n) => self@ == DisplayIdView::MacOS(n),
                None => self@ is Windows,
            },
    {
        match &self.0 {
            PlatformDisplayId::MacOS(n) => Some(*n),
            PlatformDisplayId::Windows(_) => None,
        }
    }

    /// Where this identity stands to `other` in the canonical order.
    pub fn position(&self, other: &DisplayId) -> (r: Position)
        ensures
            r == position_of(self@, other@),
            r == Position::Same <==> self@ == other@,
    {
        match (&self.0, &other.0) {
            (PlatformDisplayId::MacOS(x), PlatformDisplayId::MacOS(y)) => {
                if *x < *y {
                    Position::Before
                } else if *y < *x {
                    Position::After
                } else {
                    Position::Same
                }
            },
            (PlatformDisplayId::MacOS(_), PlatformDisplayId::Windows(_)) => Position::Before,
            (PlatformDisplayId::Windows(_), PlatformDisplayId::MacOS(_)) => Position::After,
            (PlatformDisplayId::Windows(s), PlatformDisplayId::Windows(t)) => wide_position(
                &s.name,
                &t.name,
            ),
        }
    }
}

impl Clone for DisplayId {
    fn clone(&self) -> (r: Self)
        ensures
            r@ == self@,
    {
        DisplayId(self.0.clone())
    }
}

impl PartialEq for WindowsDisplayId {
    fn eq(&self, other: &Self) -> (r: bool) {
        self.same(other)
    }
}

impl Eq for WindowsDisplayId {}

impl vstd::std_specs::cmp::PartialEqSpecImpl for WindowsDisplayId {
    open spec fn obeys_eq_spec() -> bool {
        true
    }

    open spec fn eq_spec(&self, other: &Self) -> bool {
        self@ == other@
    }
}

impl PartialEq for DisplayId {
    fn eq(&self, other: &Self) -> (r: bool) {
        self.position(other) == Position::Same
    }
}

impl Eq for DisplayId {}

impl vstd::std_specs::cmp::PartialEqSpecImpl for DisplayId {
    open spec fn obeys_eq_spec() -> bool {
        true
    }

    open spec fn eq_spec(&self, other: &Self) -> bool {
        self@ == other@
    }
}

} // verus!
