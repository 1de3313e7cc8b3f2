use vstd::prelude::*;

verus! {

/// Where provisioning a named wallet stands: the next request to make of the
/// daemon, or how it ended.
#[derive(PartialEq, Eq, Structural, Clone, Copy, Debug)]
pub enum ProvisionStep {
    /// Ask the daemon to create the wallet.
    CreateWallet,
    /// Ask the daemon to load the stored wallet.
    LoadWallet,
    /// The wallet is usable; `created` tells whether this run created it.
    Ready { created: bool },
    /// Creation failed for a reason other than an existing wallet.
    Failed,
}

/// The daemon's words for a creation that failed because the wallet is
/// already stored.
pub open spec fn already_exists_text() -> Seq<char> {
    seq!['a', 'l', 'r', 'e', 'a', 'd', 'y', ' ', 'e', 'x', 'i', 's', 't', 's']
}

/// `pat` occurs in `s` at position `i`.
pub open spec fn occurs_at(s: Seq<char>, pat: Seq<char>, i: int) -> bool {
    0 <= i && i + pat.len() <= s.len() && s.subrange(i, i + pat.len()) == pat
}

/// `pat` occurs somewhere in `s`.
pub open spec fn contains_text(s: Seq<char>, pat: Seq<char>) -> bool {
    exists|i: int| occurs_at(s, pat, i)
}

/// The creation error says that the wallet is already stored.
pub open spec fn is_exists_error(message: Seq<char>) -> bool {
    contains_text(message, already_exists_text())
}

/// The names in a listing of wallets.
pub open spec fn names_of(ws: Seq<String>) -> Seq<Seq<char>> {
    ws.map_values(|w: String| w@)
}

/// The listing of loaded wallets was obtained and holds `name`.
pub open spec fn listed(wallets: Option<Seq<String>>, name: Seq<char>) -> bool {
    match wallets {
        None => false,
        Some(ws) => names_of(ws).contains(name),
    }
}

/// Step after the daemon was asked which wallets are loaded.
pub open spec fn step_after_listing(loaded: bool) -> ProvisionStep {
    if loaded {
        ProvisionStep::Ready { created: false }
    } else {
        ProvisionStep::CreateWallet
    }
}

/// Step after the daemon was asked to create the wallet; `create_error` is
/// the error's message, `None` on success.
pub open spec fn step_after_create(create_error: Option<Seq<char>>) -> ProvisionStep {
    match create_error {
        None => ProvisionStep::Ready { created: true },
        Some(m) => if is_exists_error(m) {
            ProvisionStep::LoadWallet
        } else {
            ProvisionStep::Failed
        },
    }
}

/// Step after the daemon was asked to load the wallet. A failed load is only
/// worth a warning: the stored wallet may still be usable.
pub open spec fn step_after_load(load_ok: bool) -> ProvisionStep {
    ProvisionStep::Ready { created: false }
}

/// Where a whole provisioning run ends, given the daemon's answers: whether
/// the wallet was listed as loaded, the creation error if any, whether the
/// load succeeded. Answers that the run never asks for are ignored.
pub open spec fn provision_run(
    loaded: bool,
    create_error: Option<Seq<char>>,
    load_ok: bool,
) -> ProvisionStep {
    match step_after_listing(loaded) {
        ProvisionStep::CreateWallet => match step_after_create(create_error) {
            ProvisionStep::LoadWallet => step_after_load(load_ok),
            s => s,
        },
        s => s,
    }
}

/// Searches `s` for `pat`.
fn find_text(s: &str, pat: &str) -> (r: bool)
    ensures
        r == contains_text(s@, pat@),
{
    let n = s.unicode_len();
    let m = pat.unicode_len();
    if m > n {
        assert forall|i: int| !occurs_at(s@, pat@, i) by {}
        return false;
    }
    let mut i: usize = 0;
    while i <= n - m
        invariant
            n == s@.len(),
            m == pat@.len(),
            m <= n,
            i <= n - m + 1,
            forall|k: int| 0 <= k < i ==> !occurs_at(s@, pat@, k),
        decreases n - m + 1 - i,
    {
        let mut j: usize = 0;
        let mut same = true;
        while j < m
            invariant
                n == s@.len(),
                m == pat@.len(),
                i + m <= n,
                j <= m,
                same == (forall|t: int| 0 <= t < j ==> s@[i + t] == pat@[t]),
            decreases m - j,
        {
            if s.get_char(i + j) != pat.get_char(j) {
                same = false;
            }
            j = j + 1;
        }
        if same {
            assert(s@.subrange(i as int, i + m) =~= pat@);
            assert(occurs_at(s@, pat@, i as int));
            return true;
        }
        proof {
            if occurs_at(s@, pat@, i as int) {
                assert forall|t: int| 0 <= t < m implies s@[i + t] == pat@[t] by {
                    assert(s@.subrange(i as int, i + m)[t] == pat@[t]);
                }
            }
        }
        i = i + 1;
    }
    proof {
        assert forall|k: int| !occurs_at(s@, pat@, k) by {
            if occurs_at(s@, pat@, k) {
                assert(k < i);
            }
        }
    }
    false
}

/// Tells whether a wallet creation error says that the wallet already exists.
pub fn is_already_exists_error(message: &str) -> (r: bool)
    ensures
        r == is_exists_error(message@),
{
    proof {
        reveal_strlit("already exists");
        assert("already exists"@ =~= already_exists_text());
    }
    find_text(message, "already exists")
}

/// Tells whether `wallet_name` is among the loaded wallets that the daemon
/// listed; a listing that could not be obtained (`None`) holds no wallet.
pub fn is_wallet_loaded(wallets: &Option<Vec<String>>, wallet_name: &str) -> (r: bool)
    ensures
        r == listed(
            match wallets {
                None => None,
                Some(ws) => Some(ws@),
            },
            wallet_name@,
        ),
{
    match wallets {
        None => false,
        Some(ws) => {
            let name = String::from_str(wallet_name);
            let mut i: usize = 0;
            while i < ws.len()
                invariant
                    i <= ws@.len(),
                    *wallets == Some(*ws),
                    name@ == wallet_name@,
                    forall|k: int| 0 <= k < i ==> (#[trigger] ws@[k])@ != wallet_name@,
                decreases ws@.len() - i,
            {
                if ws[i] == name {
                    assert(ws@[i as int]@ == wallet_name@);
                    assert(names_of(ws@)[i as int] == wallet_name@);
                    return true;
                }
                i = i + 1;
            }
            assert(!names_of(ws@).contains(wallet_name@));
            false
        },
    }
}

/// The step that follows the listing of loaded wallets.
pub fn after_listing(loaded: bool) -> (r: ProvisionStep)
    ensures
        r == step_after_listing(loaded),
{
    if loaded {
        ProvisionStep::Ready { created: false }
    } else {
        ProvisionStep::CreateWallet
    }
}

/// The step that follows a creation request; `create_error` is the message of
/// its error, `None` when the wallet was created.
pub fn after_create(create_error: Option<&str>) -> (r: ProvisionStep)
    ensures
        r == step_after_create(
            match create_error {
                None => None,
                Some(m) => Some(m@),
            },
        ),
{
    match create_error {
        None => ProvisionStep::Ready { created: true },
        Some(m) => {
            if is_already_exists_error(m) {
                ProvisionStep::LoadWallet
            } else {
                ProvisionStep::Failed
            }
        },
    }
}

/// The step that follows a load request, whatever its outcome.
pub fn after_load(load_ok: bool) -> (r: ProvisionStep)
    ensures
        r == step_after_load(load_ok),
{
    ProvisionStep::Ready { created: false }
}

/// Provisioning is safe to repeat: once the wallet exists on the daemon,
/// loaded (so listed) or only stored (so its creation is refused as already
/// existing), a run never fails and reports the wallet as not newly created,
/// whatever becomes of the load.
pub proof fn lemma_provision_idempotent(
    loaded: bool,
    create_error: Option<Seq<char>>,
    load_ok: bool,
)
    requires
        loaded || (create_error matches Some(m) && is_exists_error(m)),
    ensures
        provision_run(loaded, create_error, load_ok) == (ProvisionStep::Ready { created: false }),
{
}

/// A run reports a newly created wallet exactly when the wallet was not
/// listed and its creation succeeded, and fails exactly when creation was
/// refused for another reason than an existing wallet.
pub proof fn lemma_provision_outcomes(loaded: bool, create_error: Option<Seq<char>>, load_ok: bool)
    ensures
        (provision_run(loaded, create_error, load_ok) == ProvisionStep::Ready { created: true }) == (
        !loaded && create_error is None),
        (provision_run(loaded, create_error, load_ok) == ProvisionStep::Failed) == (!loaded
            && (create_error matches Some(m) && !is_exists_error(m))),
{
}

} // verus!
