//! Names and states of libvirt guest domains.
use vstd::prelude::*;

use crate::text::{chars_of, is_whitespace, whitespace};

verus! {

broadcast use vstd::string::group_string_axioms;

/// The name of a libvirt guest domain.
#[derive(Debug, Clone, PartialEq, Eq, Hash)]
pub struct DomainName(String);

impl View for DomainName {
    type V = Seq<char>;

    closed spec fn view(&self) -> Seq<char> {
        self.0@
    }
}

impl DomainName {
    /// The name as text.
    pub fn as_str(&self) -> (r: &str)
        ensures
            r@ == self@,
    {
        self.0.as_str()
    }

    /// A domain name that holds a copy of `name`.
    pub fn new(name: &str) -> (r: DomainName)
        ensures
            r@ == name@,
    {
        DomainName(name.to_owned())
    }

    /// A copy of this name.
    pub fn duplicate(&self) -> (r: DomainName)
        ensures
            r@ == self@,
    {
        DomainName(self.0.clone())
    }
}

impl From<String> for DomainName {
    fn from(value: String) -> Self {
        DomainName(value)
    }
}

impl vstd::std_specs::convert::FromSpecImpl<String> for DomainName {
    open spec fn obeys_from_spec() -> bool {
        true
    }

    closed spec fn from_spec(v: String) -> DomainName {
        DomainName(v)
    }
}

impl<'a> From<&'a str> for DomainName {
    fn from(value: &'a str) -> (r: Self)
        ensures
            r@ == value@,
    {
        DomainName(value.to_owned())
    }
}

impl<'a> vstd::std_specs::convert::FromSpecImpl<&'a str> for DomainName {
    /// Two `String`s with the same text need not be the same value to Verus, so no one
    /// value is promised; the `ensures` of `from` says what the name holds.
    open spec fn obeys_from_spec() -> bool {
        false
    }

    closed spec fn from_spec(v: &'a str) -> DomainName {
        arbitrary()
    }
}

/// A domain name made from a string holds that string.
pub proof fn law_from_string_keeps_text(v: String)
    ensures
        <DomainName as vstd::std_specs::convert::FromSpec<String>>::from_spec(v)@ == v@,
{
}

/// The number of leading white-space characters of `s`.
pub open spec fn leading_space(s: Seq<char>) -> nat
    decreases s.len(),
{
    if s.len() > 0 && is_whitespace(s[0]) {
        1 + leading_space(s.drop_first())
    } else {
        0
    }
}

/// The number of trailing white-space characters of `s`.
pub open spec fn trailing_space(s: Seq<char>) -> nat
    decreases s.len(),
{
    if s.len() > 0 && is_whitespace(s.last()) {
        1 + trailing_space(s.drop_last())
    } else {
        0
    }
}

/// `s` without leading and trailing white space (what `str::trim` gives).
pub open spec fn trim(s: Seq<char>) -> Seq<char> {
    let t = s.skip(leading_space(s) as int);
    t.take(t.len() - trailing_space(t))
}

proof fn lemma_leading_space(s: Seq<char>, k: nat)
    requires
        k <= s.len(),
        forall|i: int| 0 <= i < k ==> is_whitespace(#[trigger] s[i]),
        k == s.len() || !is_whitespace(s[k as int]),
    ensures
        leading_space(s) == k,
    decreases k,
{
    if k > 0 {
        let t = s.drop_first();
        assert forall|i: int| 0 <= i < k - 1 implies is_whitespace(#[trigger] t[i]) by {
            assert(t[i] == s[i + 1]);
        }
        if k < s.len() {
            assert(t[k - 1] == s[k as int]);
        }
        lemma_leading_space(t, (k - 1) as nat);
    }
}

proof fn lemma_trailing_space(s: Seq<char>, k: nat)
    requires
        k <= s.len(),
        forall|i: int| s.len() - k <= i < s.len() ==> is_whitespace(#[trigger] s[i]),
        k == s.len() || !is_whitespace(s[s.len() - k - 1]),
    ensures
        trailing_space(s) == k,
    decreases k,
{
    if k > 0 {
        let t = s.drop_last();
        assert forall|i: int| t.len() - (k - 1) <= i < t.len() implies is_whitespace(
            #[trigger] t[i],
        ) by {
            assert(t[i] == s[i]);
        }
        if k < s.len() {
            assert(t[t.len() - (k - 1) - 1] == s[s.len() - k - 1]);
        }
        assert(s.last() == s[s.len() - 1]);
        lemma_trailing_space(t, (k - 1) as nat);
    }
}

proof fn lemma_leading_concat(x: Seq<char>, y: Seq<char>)
    ensures
        leading_space(x) <= x.len(),
        leading_space(x + y) == if leading_space(x) < x.len() {
            leading_space(x)
        } else {
            x.len() + leading_space(y)
        },
    decreases x.len(),
{
    if x.len() == 0 {
        assert(x + y =~= y);
    } else {
        assert((x + y)[0] == x[0]);
        if is_whitespace(x[0]) {
            assert((x + y).drop_first() =~= x.drop_first() + y);
            lemma_leading_concat(x.drop_first(), y);
        }
    }
}

proof fn lemma_trailing_concat(x: Seq<char>, y: Seq<char>)
    ensures
        trailing_space(y) <= y.len(),
        trailing_space(x + y) == if trailing_space(y) < y.len() {
            trailing_space(y)
        } else {
            y.len() + trailing_space(x)
        },
    decreases y.len(),
{
    if y.len() == 0 {
        assert(x + y =~= x);
    } else {
        assert((x + y).last() == y.last());
        if is_whitespace(y.last()) {
            assert((x + y).drop_last() =~= x + y.drop_last());
            lemma_trailing_concat(x, y.drop_last());
        }
    }
}

proof fn lemma_leading_facts(s: Seq<char>)
    ensures
        leading_space(s) <= s.len(),
        forall|i: int| 0 <= i < leading_space(s) ==> is_whitespace(#[trigger] s[i]),
        leading_space(s) < s.len() ==> !is_whitespace(s[leading_space(s) as int]),
    decreases s.len(),
{
    if s.len() > 0 && is_whitespace(s[0]) {
        let t = s.drop_first();
        lemma_leading_facts(t);
        assert forall|i: int| 0 <= i < leading_space(s) implies is_whitespace(#[trigger] s[i]) by {
            if i > 0 {
                assert(s[i] == t[i - 1]);
            }
        }
        if leading_space(s) < s.len() {
            assert(s[leading_space(s) as int] == t[leading_space(t) as int]);
        }
    }
}

proof fn lemma_trailing_whole(x: Seq<char>)
    requires
        x.len() > 0,
        trailing_space(x) >= x.len(),
    ensures
        is_whitespace(x[0]),
    decreases x.len(),
{
    lemma_trailing_concat(Seq::<char>::empty(), x);
    assert(Seq::<char>::empty() + x =~= x);
    if x.len() > 1 {
        let t = x.drop_last();
        lemma_trailing_concat(Seq::<char>::empty(), t);
        assert(Seq::<char>::empty() + t =~= t);
        lemma_trailing_whole(t);
        assert(t[0] == x[0]);
    } else {
        assert(x.last() == x[0]);
    }
}

/// White space around a text changes nothing of what `trim` keeps, so `DomainState::parse`
/// reads a padded state as the bare one.
pub proof fn law_trim_ignores_padding(l: Seq<char>, s: Seq<char>, r: Seq<char>)
    requires
        forall|i: int| 0 <= i < l.len() ==> is_whitespace(#[trigger] l[i]),
        forall|i: int| 0 <= i < r.len() ==> is_whitespace(#[trigger] r[i]),
    ensures
        trim(l + s + r) == trim(s),
        forall|st: DomainState| is_state_of(st, l + s + r) <==> is_state_of(st, s),
{
    let x = l + s + r;
    lemma_leading_space(l, l.len());
    lemma_trailing_space(r, r.len());
    assert(x =~= l + (s + r));
    lemma_leading_concat(l, s + r);
    lemma_leading_concat(s, r);
    let ls = leading_space(s);
    lemma_leading_facts(s);
    if ls < s.len() {
        let core = s.skip(ls as int);
        assert(x.skip(leading_space(x) as int) =~= core + r);
        lemma_trailing_concat(core, r);
        assert(core[0] == s[ls as int]);
        if trailing_space(core) >= core.len() {
            lemma_trailing_whole(core);
        }
        assert(trailing_space(core) < core.len());
        assert(trailing_space(core + r) == r.len() + trailing_space(core));
        assert((core + r).take(core.len() - trailing_space(core)) =~= core.take(
            core.len() - trailing_space(core),
        ));
    } else {
        lemma_leading_space(r, r.len());
        assert(leading_space(x) == l.len() + s.len() + leading_space(r));
        assert(x.skip(leading_space(x) as int).len() == 0);
        assert(s.skip(ls as int).len() == 0);
        assert(trim(x) =~= trim(s));
    }
}

/// `s` without leading and trailing white space.
pub fn trim_text(s: &str) -> (r: String)
    ensures
        r@ == trim(s@),
{
    let cs = chars_of(s);
    let n = cs.len();
    let mut i: usize = 0;
    while i < n && whitespace(cs[i])
        invariant
            cs@ == s@,
            n == cs@.len(),
            i <= n,
            forall|k: int| 0 <= k < i ==> is_whitespace(#[trigger] cs@[k]),
        decreases n - i,
    {
        i = i + 1;
    }
    let mut j: usize = n;
    while j > i && whitespace(cs[j - 1])
        invariant
            cs@ == s@,
            n == cs@.len(),
            i <= j <= n,
            forall|k: int| j <= k < n ==> is_whitespace(#[trigger] cs@[k]),
        decreases j,
    {
        j = j - 1;
    }
    proof {
        lemma_leading_space(s@, i as nat);
        let t = s@.skip(i as int);
        assert forall|k: int| t.len() - (n - j) <= k < t.len() implies is_whitespace(
            #[trigger] t[k],
        ) by {
            assert(t[k] == cs@[i + k]);
        }
        if j > i {
            assert(t[t.len() - (n - j) - 1] == cs@[j - 1]);
        }
        lemma_trailing_space(t, (n - j) as nat);
        assert(t.take(t.len() - (n - j)) =~= s@.subrange(i as int, j as int));
    }
    s.substring_char(i, j).to_owned()
}

/// Whether two texts are the same.
pub fn same_text(a: &str, b: &str) -> (r: bool)
    ensures
        r == (a@ == b@),
{
    let ca = chars_of(a);
    let cb = chars_of(b);
    if ca.len() != cb.len() {
        return false;
    }
    let n = ca.len();
    let mut i: usize = 0;
    while i < n
        invariant
            ca@ == a@,
            cb@ == b@,
            n == ca@.len() == cb@.len(),
            i <= n,
            forall|k: int| 0 <= k < i ==> ca@[k] == cb@[k],
        decreases n - i,
    {
        if ca[i] != cb[i] {
            return false;
        }
        i = i + 1;
    }
    assert(ca@ =~= cb@);
    true
}

/// Operational state of a libvirt guest domain.
#[derive(Debug, Clone, PartialEq, Eq, Hash)]
pub enum DomainState {
    Running,
    Paused,
    Stopped,
    Suspended,
    Blocked,
    Crashed,
    Unknown(String),
}

/// The state that a (trimmed) `virsh domstate` word names, if it is one that libvirt
/// reports by name.
pub open spec fn known_state(t: Seq<char>) -> Option<DomainState> {
    if t == "running"@ {
        Some(DomainState::Running)
    } else if t == "paused"@ {
        Some(DomainState::Paused)
    } else if t == "shut off"@ {
        Some(DomainState::Stopped)
    } else if t == "blocked"@ {
        Some(DomainState::Blocked)
    } else if t == "crashed"@ {
        Some(DomainState::Crashed)
    } else if t == "pmsuspended"@ {
        Some(DomainState::Suspended)
    } else {
        None
    }
}

/// `r` is the state that the text `s` names: the named state of the trimmed text, or
/// `Unknown` holding the trimmed text.
pub open spec fn is_state_of(r: DomainState, s: Seq<char>) -> bool {
    match known_state(trim(s)) {
        Some(k) => r == k,
        None => r matches DomainState::Unknown(o) && o@ == trim(s),
    }
}

impl DomainState {
    /// Reads a state as `virsh domstate` prints it, ignoring surrounding white space.
    pub fn parse(s: &str) -> (r: Self)
        ensures
            is_state_of(r, s@),
    {
        let t = trim_text(s);
        let ts = t.as_str();
        if same_text(ts, "running") {
            DomainState::Running
        } else if same_text(ts, "paused") {
            DomainState::Paused
        } else if same_text(ts, "shut off") {
            DomainState::Stopped
        } else if same_text(ts, "blocked") {
            DomainState::Blocked
        } else if same_text(ts, "crashed") {
            DomainState::Crashed
        } else if same_text(ts, "pmsuspended") {
            DomainState::Suspended
        } else {
            DomainState::Unknown(t)
        }
    }
}

impl std::str::FromStr for DomainState {
    type Err = core::convert::Infallible;

    fn from_str(s: &str) -> (r: Result<Self, Self::Err>)
        ensures
            r matches Ok(st) && is_state_of(st, s@),
    {
        Ok(Self::parse(s))
    }
}

} // verus!
