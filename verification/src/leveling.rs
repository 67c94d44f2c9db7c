//! Leveling: the XP curve and the cooldown-gated XP grant. The level of a
//! total is the largest `L` whose cumulative cost is covered by the total.

use vstd::prelude::*;

use crate::models::AddXpResult;
use crate::models::User;
use crate::models::WorkflowError;

verus! {

/// XP required to go from `level - 1` to `level`:
/// `5·level² + 50·level + 100`.
pub open spec fn spec_xp_for_level(level: int) -> int {
    5 * level * level + 50 * level + 100
}

/// Total XP consumed by reaching `level` from 0.
pub open spec fn cumulative_xp(level: nat) -> int
    decreases level,
{
    if level == 0 {
        0
    } else {
        cumulative_xp((level - 1) as nat) + spec_xp_for_level(level as int)
    }
}

/// Each level from 1 on costs at least 100 XP, so the total consumed grows
/// at least linearly.
proof fn lemma_cumulative_lower(level: nat)
    ensures
        cumulative_xp(level) >= 100 * level,
    decreases level,
{
    if level > 0 {
        lemma_cumulative_lower((level - 1) as nat);
        assert(spec_xp_for_level(level as int) >= 100) by (nonlinear_arith);
    }
}

/// XP required to go from `level - 1` to `level`.
pub fn xp_for_level(level: i64) -> (r: i64)
    requires
        0 <= level <= 1_000_000_000,
    ensures
        r == spec_xp_for_level(level as int),
{
    proof {
        assert(5 * (level as int) * (level as int) <= 5_000_000_000_000_000_000) by (
        nonlinear_arith)
            requires
                0 <= level <= 1_000_000_000,
        ;
        assert(5 * (level as int) * (level as int) >= 0) by (nonlinear_arith)
            requires
                0 <= level,
        ;
    }
    5 * level * level + 50 * level + 100
}

/// The curve's cost of the next level, wide enough to never overflow for
/// any level the walk below can reach.
fn next_level_cost(level: i64) -> (r: i128)
    requires
        0 <= level < 100_000_000_000_000_000,
    ensures
        r == spec_xp_for_level(level as int + 1),
        r >= 100,
{
    let l: i128 = (level as i128) + 1;
    proof {
        assert(5 * l * l <= 100_000_000_000_000_000_000_000_000_000_000_000) by (nonlinear_arith)
            requires
                0 < l <= 100_000_000_000_000_001,
        ;
        assert(5 * l * l >= 0) by (nonlinear_arith)
            requires
                0 < l,
        ;
    }
    5 * l * l + 50 * l + 100
}

/// The level a total XP amount earns: the largest `L` with
/// `cumulative_xp(L) <= xp`; 0 when the total is negative.
pub fn calculate_level(xp: i64) -> (r: i64)
    ensures
        r >= 0,
        xp >= 0 ==> cumulative_xp(r as nat) <= xp,
        xp < cumulative_xp((r + 1) as nat),
        xp < 0 ==> r == 0,
{
    let mut level: i64 = 0;
    let mut remaining: i128 = xp as i128;
    let mut needed: i128 = next_level_cost(level);
    while remaining >= needed
        invariant
            0 <= level,
            xp < 0 ==> level == 0 && remaining == xp,
            xp >= 0 ==> remaining == xp - cumulative_xp(level as nat) && remaining >= 0,
            xp >= 0 ==> 100 * (level as int) <= xp,
            level < 100_000_000_000_000_000,
            needed == spec_xp_for_level(level as int + 1),
            needed >= 100,
        decreases remaining,
    {
        proof {
            lemma_cumulative_lower((level + 1) as nat);
        }
        remaining = remaining - needed;
        level = level + 1;
        needed = next_level_cost(level);
    }
    level
}

/// The cooldown-gated XP grant: no XP within `cooldown_seconds` of the last
/// update; otherwise an amount between `xp_min` and `xp_max` drawn from
/// `seed` (exactly `xp_min` when the range is empty), with the level
/// recomputed from the new total.
pub fn add_xp(user: &User, now: i64, cooldown_seconds: i64, xp_min: i64, xp_max: i64, seed: u64) -> (r:
    AddXpResult)
    requires
        0 <= user.updated_at <= now,
        0 <= user.xp,
        0 <= xp_min,
        0 <= xp_max,
        user.xp + xp_min <= i64::MAX,
        user.xp + xp_max <= i64::MAX,
    ensures
        now - user.updated_at < cooldown_seconds ==> {
            &&& r.xp_gained == 0
            &&& !r.leveled_up
            &&& r.user == *user
        },
        now - user.updated_at >= cooldown_seconds ==> {
            &&& xp_min >= xp_max ==> r.xp_gained == xp_min
            &&& xp_min < xp_max ==> xp_min <= r.xp_gained <= xp_max
            &&& r.user.xp == user.xp + r.xp_gained
            &&& r.user.level >= 0
            &&& cumulative_xp(r.user.level as nat) <= r.user.xp
            &&& r.user.xp < cumulative_xp((r.user.level + 1) as nat)
            &&& r.leveled_up == (r.user.level > user.level)
            &&& r.user.updated_at == now
            &&& r.user.id == user.id
            &&& r.user.balance == user.balance
            &&& r.user.last_daily == user.last_daily
            &&& r.user.visible_xp == user.visible_xp
            &&& r.user.created_at == user.created_at
        },
{
    let elapsed = now - user.updated_at;
    if elapsed < cooldown_seconds {
        return AddXpResult { user: user.duplicate(), leveled_up: false, xp_gained: 0 };
    }
    let xp_gained: i64 = if xp_min >= xp_max {
        xp_min
    } else {
        let range: u64 = ((xp_max - xp_min) as u64) + 1;
        let offset = seed % range;
        xp_min + (offset as i64)
    };
    let new_xp = user.xp + xp_gained;
    let new_level = calculate_level(new_xp);
    let leveled_up = new_level > user.level;
    let updated = User {
        id: user.id.clone(),
        xp: new_xp,
        level: new_level,
        balance: user.balance,
        last_daily: user.last_daily,
        visible_xp: user.visible_xp,
        created_at: user.created_at,
        updated_at: now,
    };
    AddXpResult { user: updated, leveled_up, xp_gained }
}

/// True when some row carries this user id.
pub open spec fn has_user(s: Seq<User>, uid: Seq<char>) -> bool {
    exists|i: int| 0 <= i < s.len() && s[i].id@ == uid
}

/// The bounds under which an XP grant is well defined: sane timestamps, a
/// non-negative total and range, and headroom for the gain.
pub open spec fn xp_grant_ok(u: User, now: i64, xp_min: i64, xp_max: i64) -> bool {
    &&& 0 <= u.updated_at <= now
    &&& 0 <= u.xp
    &&& 0 <= xp_min
    &&& 0 <= xp_max
    &&& u.xp + xp_min <= i64::MAX
    &&& u.xp + xp_max <= i64::MAX
}

/// Store of leveling rows; one row per user.
pub struct UserStore {
    pub users: Vec<User>,
}

impl UserStore {
    /// Invariant of the store.
    pub open spec fn wf(&self) -> bool {
        forall|i: int, j: int|
            0 <= i < j < self.users@.len() ==> self.users@[i].id@ != self.users@[j].id@
    }

    /// An empty store.
    pub fn new() -> (s: UserStore)
        ensures
            s.wf(),
            s.users@.len() == 0,
    {
        UserStore { users: Vec::new() }
    }

    /// Fetch a user's row, or create one with zeroed totals if it does not
    /// exist yet.
    #[verifier::loop_isolation(false)]
    pub fn get_or_create_user(&mut self, user_id: &String, now: i64) -> (r: User)
        requires
            old(self).wf(),
        ensures
            final(self).wf(),
            r.id@ == user_id@,
            has_user(final(self).users@, user_id@),
            forall|i: int|
                0 <= i < old(self).users@.len() && (#[trigger] old(self).users@[i]).id@
                    == user_id@ ==> *final(self) == *old(self) && r == old(self).users@[i],
            !has_user(old(self).users@, user_id@) ==> {
                &&& final(self).users@.len() == old(self).users@.len() + 1
                &&& forall|j: int|
                    0 <= j < old(self).users@.len() ==> final(self).users@[j] == old(
                        self,
                    ).users@[j]
                &&& final(self).users@[old(self).users@.len() as int] == r
                &&& r.xp == 0
                &&& r.level == 0
                &&& r.balance == 0
                &&& r.last_daily is None
                &&& r.visible_xp
                &&& r.created_at == now
                &&& r.updated_at == now
            },
    {
        let n = self.users.len();
        let mut i: usize = 0;
        while i < n
            invariant
                i <= n,
                *self == *old(self),
                forall|k: int| 0 <= k < i as int ==> (#[trigger] self.users@[k]).id@ != user_id@,
            decreases n - i,
        {
            if self.users[i].id == *user_id {
                return self.users[i].duplicate();
            }
            i = i + 1;
        }
        let u = User {
            id: user_id.clone(),
            xp: 0,
            level: 0,
            balance: 0,
            last_daily: None,
            visible_xp: true,
            created_at: now,
            updated_at: now,
        };
        let out = u.duplicate();
        self.users.push(u);
        out
    }

    /// Fetch a user's row, if it exists.
    #[verifier::loop_isolation(false)]
    pub fn get_user(&self, user_id: &String) -> (r: Option<User>)
        requires
            self.wf(),
        ensures
            r is Some <==> has_user(self.users@, user_id@),
            forall|i: int|
                0 <= i < self.users@.len() && (#[trigger] self.users@[i]).id@ == user_id@ ==> r
                    == Some(self.users@[i]),
    {
        let n = self.users.len();
        let mut i: usize = 0;
        while i < n
            invariant
                i <= n,
                forall|k: int| 0 <= k < i as int ==> (#[trigger] self.users@[k]).id@ != user_id@,
            decreases n - i,
        {
            if self.users[i].id == *user_id {
                return Some(self.users[i].duplicate());
            }
            i = i + 1;
        }
        None
    }

    /// Grant XP to a stored user, creating the row first if needed, through
    /// the cooldown-gated grant. A grant whose bounds are not sane is
    /// refused as malformed and changes nothing beyond the row creation.
    #[verifier::loop_isolation(false)]
    pub fn grant_xp(
        &mut self,
        user_id: &String,
        now: i64,
        cooldown_seconds: i64,
        xp_min: i64,
        xp_max: i64,
        seed: u64,
    ) -> (r: Result<AddXpResult, WorkflowError>)
        requires
            old(self).wf(),
        ensures
            final(self).wf(),
            r is Ok ==> {
                let res = r->Ok_0;
                &&& res.user.id@ == user_id@
                &&& has_user(final(self).users@, user_id@)
                &&& forall|i: int|
                    0 <= i < final(self).users@.len() && (#[trigger] final(self).users@[i]).id@
                        == user_id@ ==> final(self).users@[i] == res.user
                &&& res.xp_gained >= 0
                &&& res.xp_gained != 0 ==> {
                    &&& res.user.updated_at == now
                    &&& res.user.level >= 0
                    &&& cumulative_xp(res.user.level as nat) <= res.user.xp
                    &&& res.user.xp < cumulative_xp((res.user.level + 1) as nat)
                }
            },
            r is Err ==> r == Err::<AddXpResult, WorkflowError>(WorkflowError::Validation),
    {
        let current = self.get_or_create_user(user_id, now);
        let sane = 0 <= current.updated_at && current.updated_at <= now && 0 <= current.xp && 0
            <= xp_min && 0 <= xp_max && current.xp <= i64::MAX - xp_min && current.xp <= i64::MAX
            - xp_max;
        if !sane {
            return Err(WorkflowError::Validation);
        }
        let result = add_xp(&current, now, cooldown_seconds, xp_min, xp_max, seed);
        let n = self.users.len();
        let mut i: usize = 0;
        while i < n
            invariant
                i <= n,
                self.wf(),
                has_user(self.users@, user_id@),
                result.user.id@ == user_id@,
                forall|k: int| 0 <= k < i as int ==> (#[trigger] self.users@[k]).id@ != user_id@,
            decreases n - i,
        {
            if self.users[i].id == *user_id {
                self.users.set(i, result.user.duplicate());
                proof {
                    assert(self.users@[i as int] == result.user);
                    assert forall|k: int|
                        0 <= k < self.users@.len() && (#[trigger] self.users@[k]).id@ == user_id@
                            implies self.users@[k] == result.user by {
                        if k != i as int {
                            assert(self.users@[k] == old(self).users@[k]
                                || k >= old(self).users@.len());
                        }
                    }
                }
                return Ok(result);
            }
            i = i + 1;
        }
        Err(WorkflowError::Validation)
    }
}

} // verus!
