//! Plain value types shared by the storage core: timestamps, transition
//! kinds, and the sync-stable guid newtype.

use vstd::prelude::*;

verus! {

/// Milliseconds since the Unix epoch.
#[derive(Debug, Clone, Copy, PartialEq, Eq, Structural, Hash, Default)]
pub struct Timestamp(pub u64);

impl Timestamp {
    /// Relies on std::time::SystemTime for the wall clock. Nothing is
    /// promised of the value: callers state what holds of every outcome.
    #[verifier::external_body]
    pub fn now() -> Timestamp {
        let ms = match std::time::SystemTime::now().duration_since(std::time::UNIX_EPOCH) {
            Ok(d) => d.as_millis() as u64,
            Err(_) => 0,
        };
        Timestamp(ms)
    }
}

/// The transition kind of one navigation.
#[derive(Debug, Clone, Copy, PartialEq, Eq, Structural, Hash)]
pub enum VisitTransition {
    /// The user followed a link.
    Link,
    /// The user typed the address directly.
    Typed,
    /// The page was reached from a bookmark.
    Bookmark,
    /// Framework-internal navigation inside an embedded frame.
    Embed,
    /// The page permanently redirected elsewhere.
    RedirectPermanent,
    /// The page temporarily redirected elsewhere.
    RedirectTemporary,
    /// The navigation was a download.
    Download,
    /// A link inside an embedded frame, followed by the user.
    FramedLink,
    /// The page was reloaded.
    Reload,
}

/// A globally-unique, sync-stable page identifier, assigned once at page
/// creation and never changed afterwards.
#[derive(Debug, Clone, PartialEq, Eq)]
pub struct SyncGuid(pub String);

impl View for SyncGuid {
    type V = Seq<char>;

    open spec fn view(&self) -> Seq<char> {
        self.0@
    }
}

/// Relies on String::push: appends exactly the one character.
#[verifier::external_body]
pub(crate) fn push_char(s: &mut String, c: char)
    ensures
        final(s)@ == old(s)@ + seq![c],
{
    s.push(c);
}

pub open spec fn digit_char(d: u64) -> char
    recommends
        d < 10,
{
    ((d + 48) as u8) as char
}

/// The decimal digits of `n`, most significant first.
pub open spec fn dec_digits(n: u64) -> Seq<char>
    decreases n,
{
    if n < 10 {
        seq![digit_char(n)]
    } else {
        dec_digits(n / 10).push(digit_char(n % 10))
    }
}

fn push_dec(n: u64, out: &mut String)
    ensures
        final(out)@ == old(out)@ + dec_digits(n),
    decreases n,
{
    if n >= 10 {
        push_dec(n / 10, out);
    }
    let d: u64 = n % 10;
    push_char(out, ((d + 48) as u8) as char);
    proof {
        assert(out@ =~= old(out)@ + dec_digits(n));
    }
}

impl SyncGuid {
    /// The guid the store assigns to the `n`-th created page: the decimal
    /// rendering of the creation counter, distinct for every counter value.
    pub fn from_counter(n: u64) -> (g: SyncGuid)
        ensures
            g@ == dec_digits(n),
    {
        let mut s = String::new();
        push_dec(n, &mut s);
        proof {
            assert(Seq::<char>::empty() + dec_digits(n) =~= dec_digits(n));
        }
        SyncGuid(s)
    }
}

} // verus!
