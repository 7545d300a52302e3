use vstd::prelude::*;

verus! {

use vstd::pervasive::VecAdditionalExecFns;

/// A bucket key: UTC (year, month, day, hour). Daily buckets use hour zero.
pub type BucketKey = (u32, u8, u8, u8);

/// Chronological (lexicographic) order of bucket keys.
pub open spec fn key_lt(a: BucketKey, b: BucketKey) -> bool {
    ||| a.0 < b.0
    ||| (a.0 == b.0 && a.1 < b.1)
    ||| (a.0 == b.0 && a.1 == b.1 && a.2 < b.2)
    ||| (a.0 == b.0 && a.1 == b.1 && a.2 == b.2 && a.3 < b.3)
}

/// Two keys are equal, or one is strictly before the other.
pub proof fn lemma_key_order_total(a: BucketKey, b: BucketKey)
    ensures
        a == b || key_lt(a, b) || key_lt(b, a),
        !(key_lt(a, b) && key_lt(b, a)),
        key_lt(a, b) ==> a != b,
{
}

fn key_lt_exec(a: &BucketKey, b: &BucketKey) -> (r: bool)
    ensures
        r == key_lt(*a, *b),
{
    a.0 < b.0
        || (a.0 == b.0 && a.1 < b.1)
        || (a.0 == b.0 && a.1 == b.1 && a.2 < b.2)
        || (a.0 == b.0 && a.1 == b.1 && a.2 == b.2 && a.3 < b.3)
}

fn key_eq_exec(a: &BucketKey, b: &BucketKey) -> (r: bool)
    ensures
        r == (*a == *b),
{
    a.0 == b.0 && a.1 == b.1 && a.2 == b.2 && a.3 == b.3
}

/// `n + 1`, stopping at the largest counter value.
pub open spec fn sat_inc(n: u32) -> u32 {
    if n < u32::MAX {
        (n + 1) as u32
    } else {
        n
    }
}

/// Per-user event counts inside one bucket, in first-seen order.
pub struct EventsPerUser {
    per_user: Vec<(String, u32)>,
}

/// No user appears twice in a counter sequence.
pub open spec fn users_wf(users: Seq<(Seq<char>, u32)>) -> bool {
    forall|i: int, j: int| 0 <= i < j < users.len() ==> users[i].0 != users[j].0
}

/// Whether `user` already has a counter.
pub open spec fn has_user(users: Seq<(Seq<char>, u32)>, user: Seq<char>) -> bool {
    exists|i: int| 0 <= i < users.len() && users[i].0 == user
}

/// The position of `user`'s counter.
pub open spec fn user_pos(users: Seq<(Seq<char>, u32)>, user: Seq<char>) -> int {
    choose|i: int| 0 <= i < users.len() && users[i].0 == user
}

/// One more event counted for `user`: their counter incremented, or a fresh
/// counter at one appended in first-seen order.
pub open spec fn bumped_users(users: Seq<(Seq<char>, u32)>, user: Seq<char>) -> Seq<
    (Seq<char>, u32),
> {
    if has_user(users, user) {
        let i = user_pos(users, user);
        users.update(i, (user, sat_inc(users[i].1)))
    } else {
        users.push((user, 1u32))
    }
}

impl EventsPerUser {
    /// The (user, count) pairs, in first-seen order.
    pub closed spec fn users(&self) -> Seq<(Seq<char>, u32)> {
        self.per_user@.map(|_i: int, p: (String, u32)| (p.0@, p.1))
    }

    /// No user has two counters.
    pub open spec fn wf(&self) -> bool {
        users_wf(self.users())
    }

    /// A counter map holding one event for `user` alone.
    pub fn singleton(user: String) -> (r: EventsPerUser)
        ensures
            r.users() == seq![(user@, 1u32)],
            r.wf(),
    {
        let mut v: Vec<(String, u32)> = Vec::new();
        v.push((user, 1));
        let r = EventsPerUser { per_user: v };
        assert(r.users() =~= seq![(r.per_user@[0].0@, 1u32)]);
        r
    }

    /// Counts one more event for `user`.
    pub fn push(&mut self, user: String)
        requires
            old(self).wf(),
        ensures
            final(self).wf(),
            final(self).users() == bumped_users(old(self).users(), user@),
    {
        let n = self.per_user.len();
        let mut i: usize = 0;
        while i < n
            invariant
                *self == *old(self),
                old(self).wf(),
                n == self.per_user.len(),
                0 <= i <= n,
                forall|j: int| 0 <= j < i ==> self.users()[j].0 != user@,
            decreases n - i,
        {
            if self.per_user[i].0 == user {
                proof {
                    assert(self.users()[i as int].0 == user@);
                    let k = user_pos(self.users(), user@);
                    assert(0 <= k < self.users().len() && self.users()[k].0 == user@);
                    if k < i {
                        assert(self.users()[k].0 != self.users()[i as int].0);
                    } else if i < k {
                        assert(self.users()[i as int].0 != self.users()[k].0);
                    }
                }
                let count = self.per_user[i].1;
                let bumped = if count < u32::MAX {
                    count + 1
                } else {
                    count
                };
                let ghost before = self.users();
                let entry = &mut self.per_user[i];
                entry.1 = bumped;
                proof {
                    assert(self.users() =~= bumped_users(before, user@));
                }
                return ;
            }
            i += 1;
        }
        assert(!has_user(self.users(), user@));
        let ghost before = self.users();
        self.per_user.push((user, 1));
        proof {
            assert(self.users() =~= before.push((self.per_user@[n as int].0@, 1u32)));
            assert forall|a: int, b: int|
                0 <= a < b < self.users().len() implies self.users()[a].0 != self.users()[b].0 by {
                if b < n {
                    assert(before[a].0 != before[b].0);
                } else {
                    assert(self.users()[a] == before[a]);
                }
            }
        }
    }
}


/// Rolling per-bucket counters, kept sorted by key, oldest first.
pub struct BucketMap {
    entries: Vec<(BucketKey, EventsPerUser)>,
}

/// Whether a bucket with key `k` exists.
pub open spec fn has_bucket(bs: Seq<(BucketKey, Seq<(Seq<char>, u32)>)>, k: BucketKey) -> bool {
    exists|i: int| 0 <= i < bs.len() && bs[i].0 == k
}

/// The position of the bucket with key `k`.
pub open spec fn bucket_pos(bs: Seq<(BucketKey, Seq<(Seq<char>, u32)>)>, k: BucketKey) -> int {
    choose|i: int| 0 <= i < bs.len() && bs[i].0 == k
}

/// Every key before position `p` is strictly smaller than `k`.
pub open spec fn prefix_lt(bs: Seq<(BucketKey, Seq<(Seq<char>, u32)>)>, k: BucketKey, p: int) -> bool {
    forall|j: int| 0 <= j < p ==> key_lt(bs[j].0, k)
}

/// Where a fresh bucket with key `k` belongs: after every smaller key.
pub open spec fn insert_pos_of(bs: Seq<(BucketKey, Seq<(Seq<char>, u32)>)>, k: BucketKey) -> int {
    choose|p: int|
        0 <= p <= bs.len() && #[trigger] prefix_lt(bs, k, p) && (p < bs.len()
            ==> !key_lt(bs[p].0, k))
}

/// One more event for `user` under key `k`: the existing bucket's counter map
/// bumped, or a fresh singleton bucket inserted in key order.
pub open spec fn bumped_buckets(
    bs: Seq<(BucketKey, Seq<(Seq<char>, u32)>)>,
    k: BucketKey,
    user: Seq<char>,
) -> Seq<(BucketKey, Seq<(Seq<char>, u32)>)> {
    if has_bucket(bs, k) {
        let i = bucket_pos(bs, k);
        bs.update(i, (k, bumped_users(bs[i].1, user)))
    } else {
        bs.insert(insert_pos_of(bs, k), (k, seq![(user, 1u32)]))
    }
}

/// Keys strictly increase along the sequence and every counter map is
/// well-formed.
pub open spec fn buckets_wf(bs: Seq<(BucketKey, Seq<(Seq<char>, u32)>)>) -> bool {
    &&& forall|i: int, j: int| 0 <= i < j < bs.len() ==> key_lt(bs[i].0, bs[j].0)
    &&& forall|i: int| 0 <= i < bs.len() ==> users_wf(#[trigger] bs[i].1)
}

impl BucketMap {
    /// The buckets, oldest key first.
    pub closed spec fn buckets(&self) -> Seq<(BucketKey, Seq<(Seq<char>, u32)>)> {
        self.entries@.map(|_i: int, e: (BucketKey, EventsPerUser)| (e.0, e.1.users()))
    }

    pub open spec fn wf(&self) -> bool {
        buckets_wf(self.buckets())
    }

    pub fn new() -> (r: BucketMap)
        ensures
            r.buckets() == Seq::<(BucketKey, Seq<(Seq<char>, u32)>)>::empty(),
            r.wf(),
    {
        let r = BucketMap { entries: Vec::new() };
        assert(r.buckets() =~= Seq::<(BucketKey, Seq<(Seq<char>, u32)>)>::empty());
        r
    }

    pub fn len(&self) -> (r: usize)
        ensures
            r == self.buckets().len(),
    {
        self.entries.len()
    }

    /// Counts one event for `user` in the bucket keyed `key`, creating the
    /// bucket in key order if it is new.
    pub fn bump(&mut self, key: BucketKey, user: String)
        requires
            old(self).wf(),
        ensures
            final(self).wf(),
            final(self).buckets() == bumped_buckets(old(self).buckets(), key, user@),
            final(self).buckets().len() == if has_bucket(old(self).buckets(), key) {
                old(self).buckets().len() as int
            } else {
                old(self).buckets().len() + 1int
            },
    {
        let n = self.entries.len();
        let mut i: usize = 0;
        while i < n && key_lt_exec(&self.entries[i].0, &key)
            invariant
                *self == *old(self),
                old(self).wf(),
                n == self.entries.len(),
                0 <= i <= n,
                forall|j: int| 0 <= j < i ==> key_lt(self.buckets()[j].0, key),
            decreases n - i,
        {
            i += 1;
        }
        let ghost bs = self.buckets();
        if i < n && key_eq_exec(&self.entries[i].0, &key) {
            proof {
                assert(bs[i as int].0 == key);
                let p = bucket_pos(bs, key);
                assert(0 <= p < bs.len() && bs[p].0 == key);
                if p < i {
                    assert(key_lt(bs[p].0, key));
                } else if i < p {
                    assert(key_lt(bs[i as int].0, bs[p].0));
                }
                assert(p == i);
            }
            proof {
                assert(self.buckets()[i as int].1 == self.entries@[i as int].1.users());
                assert(users_wf(self.entries@[i as int].1.users()));
            }
            let entry = &mut self.entries[i];
            assert(entry.1.wf());
            entry.1.push(user);
            proof {
                assert(self.buckets() =~= bumped_buckets(bs, key, user@));
                assert forall|a: int, b: int|
                    0 <= a < b < self.buckets().len() implies key_lt(
                    self.buckets()[a].0,
                    self.buckets()[b].0,
                ) by {
                    assert(self.buckets()[a].0 == bs[a].0);
                    assert(self.buckets()[b].0 == bs[b].0);
                }
                assert forall|a: int|
                    0 <= a < self.buckets().len() implies users_wf(
                    #[trigger] self.buckets()[a].1,
                ) by {
                    if a != i {
                        assert(self.buckets()[a].1 == bs[a].1);
                    }
                }
            }
        } else {
            proof {
                // Not present: everything before i is smaller, everything
                // from i on is strictly larger.
                assert forall|j: int| i <= j < n implies key_lt(key, bs[j].0) by {
                    if j == i {
                        lemma_key_order_total(bs[j].0, key);
                    } else {
                        assert(key_lt(bs[i as int].0, bs[j].0));
                        lemma_key_order_total(bs[i as int].0, key);
                    }
                }
                assert(!has_bucket(bs, key));
                assert(prefix_lt(bs, key, i as int));
                assert(0 <= (i as int) <= bs.len() && prefix_lt(bs, key, i as int) && ((
                i as int) < bs.len() ==> !key_lt(bs[i as int].0, key)));
                let p = insert_pos_of(bs, key);
                assert(0 <= p <= bs.len() && prefix_lt(bs, key, p) && (p < bs.len() ==> !key_lt(
                    bs[p].0,
                    key,
                )));
                if p < i {
                    assert(key_lt(bs[p].0, key));
                } else if i < p {
                    assert(key_lt(bs[i as int].0, key));
                }
                assert(p == i);
            }
            self.entries.insert(i, (key, EventsPerUser::singleton(user)));
            proof {
                assert(self.buckets() =~= bs.insert(i as int, (key, seq![(user@, 1u32)])));
                assert forall|a: int, b: int|
                    0 <= a < b < self.buckets().len() implies key_lt(
                    self.buckets()[a].0,
                    self.buckets()[b].0,
                ) by {
                    let pick = |x: int| if x < i { bs[x].0 } else if x == i { key } else {
                        bs[x - 1].0
                    };
                    assert(self.buckets()[a].0 == pick(a));
                    assert(self.buckets()[b].0 == pick(b));
                }
                assert forall|a: int|
                    0 <= a < self.buckets().len() implies users_wf(
                    #[trigger] self.buckets()[a].1,
                ) by {
                    if a < i {
                        assert(self.buckets()[a].1 == bs[a].1);
                    } else if a > i {
                        assert(self.buckets()[a].1 == bs[a - 1].1);
                    } else {
                        assert(self.buckets()[a].1 == seq![(user@, 1u32)]);
                    }
                }
            }
        }
    }

    /// Discards the chronologically first bucket.
    pub fn remove_oldest(&mut self)
        requires
            old(self).wf(),
            old(self).buckets().len() > 0,
        ensures
            final(self).wf(),
            final(self).buckets() == old(self).buckets().skip(1),
    {
        let ghost bs = self.buckets();
        self.entries.remove(0);
        proof {
            assert(self.buckets() =~= bs.skip(1));
            assert forall|a: int|
                0 <= a < self.buckets().len() implies users_wf(#[trigger] self.buckets()[a].1) by {
                assert(self.buckets()[a].1 == bs[a + 1].1);
            }
        }
    }
}


/// The hourly series keeps at most this many buckets: seventy days of hours.
pub const HOURLY_MAX_ENTRIES: usize = 1680;

/// Query pages hold at most this many rows.
pub const PAGE_SIZE: usize = 1000;

/// One row of an aggregation read.
pub struct DappRadarResponseEntry {
    pub date_time: Option<String>,
    pub user: String,
    pub transactions: u32,
}

/// The mathematical value of a [`DappRadarResponseEntry`].
pub struct ResponseEntryView {
    pub date_time: Option<Seq<char>>,
    pub user: Seq<char>,
    pub transactions: u32,
}

impl View for DappRadarResponseEntry {
    type V = ResponseEntryView;

    open spec fn view(&self) -> ResponseEntryView {
        ResponseEntryView {
            date_time: match self.date_time {
                Some(ref s) => Some(s@),
                None => None,
            },
            user: self.user@,
            transactions: self.transactions,
        }
    }
}

/// The rows and page count an aggregation read returns.
pub struct DappRadarResponse {
    pub results: Vec<DappRadarResponseEntry>,
    pub page_count: u32,
}

/// The views of a vector of rows.
pub open spec fn entry_views(rows: Seq<DappRadarResponseEntry>) -> Seq<ResponseEntryView> {
    Seq::new(rows.len(), |i: int| rows[i]@)
}

/// The timestamp label of an hourly bucket: year, then zero-padded month, day
/// and hour, on the hour.
pub open spec fn datetime_chars(k: BucketKey) -> Seq<char> {
    crate::decimal::dec_str(k.0 as int) + seq!['-'] + crate::decimal::dec2_str(k.1 as int)
        + seq!['-'] + crate::decimal::dec2_str(k.2 as int) + seq![' ']
        + crate::decimal::dec2_str(k.3 as int) + seq![':', '0', '0', ':', '0', '0']
}

/// Renders the timestamp label of an hourly bucket.
fn format_datetime(k: &BucketKey) -> (r: String)
    ensures
        r@ == datetime_chars(*k),
{
    proof {
        reveal_strlit("-");
        reveal_strlit(" ");
        reveal_strlit(":00:00");
    }
    let mut s = String::new();
    crate::decimal::push_dec_u32(&mut s, k.0);
    s.append("-");
    crate::decimal::push_dec2_u32(&mut s, k.1 as u32);
    s.append("-");
    crate::decimal::push_dec2_u32(&mut s, k.2 as u32);
    s.append(" ");
    crate::decimal::push_dec2_u32(&mut s, k.3 as u32);
    s.append(":00:00");
    assert(s@ =~= datetime_chars(*k));
    s
}

/// Whether a bucket key falls on the given calendar day.
pub open spec fn matches_day(k: BucketKey, y: u32, m: u8, d: u8) -> bool {
    k.0 == y && k.1 == m && k.2 == d
}

/// The rows of one bucket, in counter (first-seen) order.
pub open spec fn bucket_rows(
    b: (BucketKey, Seq<(Seq<char>, u32)>),
    with_time: bool,
) -> Seq<ResponseEntryView> {
    Seq::new(
        b.1.len(),
        |i: int| ResponseEntryView {
            date_time: if with_time {
                Some(datetime_chars(b.0))
            } else {
                None
            },
            user: b.1[i].0,
            transactions: b.1[i].1,
        },
    )
}

/// The rows of the first `n` buckets that fall on the given day, in bucket
/// order.
pub open spec fn day_rows_upto(
    bs: Seq<(BucketKey, Seq<(Seq<char>, u32)>)>,
    y: u32,
    m: u8,
    d: u8,
    with_time: bool,
    n: int,
) -> Seq<ResponseEntryView>
    decreases n,
{
    if n <= 0 {
        Seq::empty()
    } else {
        day_rows_upto(bs, y, m, d, with_time, n - 1) + if matches_day(bs[n - 1].0, y, m, d) {
            bucket_rows(bs[n - 1], with_time)
        } else {
            Seq::empty()
        }
    }
}

/// Every row of the given day, across all buckets, in bucket order.
pub open spec fn day_rows(
    bs: Seq<(BucketKey, Seq<(Seq<char>, u32)>)>,
    y: u32,
    m: u8,
    d: u8,
    with_time: bool,
) -> Seq<ResponseEntryView> {
    day_rows_upto(bs, y, m, d, with_time, bs.len() as int)
}

impl BucketMap {
    /// Collects the rows of every bucket on the given day, labelling each row
    /// with the bucket's timestamp when `with_time` is set.
    fn collect_day(&self, y: u32, m: u8, d: u8, with_time: bool) -> (r: Vec<
        DappRadarResponseEntry,
    >)
        ensures
            entry_views(r@) == day_rows(self.buckets(), y, m, d, with_time),
    {
        let ghost bs = self.buckets();
        let n = self.entries.len();
        let mut r: Vec<DappRadarResponseEntry> = Vec::new();
        let mut i: usize = 0;
        while i < n
            invariant
                n == self.entries.len(),
                bs == self.buckets(),
                0 <= i <= n,
                entry_views(r@) =~= day_rows_upto(bs, y, m, d, with_time, i as int),
            decreases n - i,
        {
            let ghost r_before = entry_views(r@);
            let key = self.entries[i].0;
            if key.0 == y && key.1 == m && key.2 == d {
                let label: Option<String> = if with_time {
                    Some(format_datetime(&key))
                } else {
                    None
                };
                let ghost rows = bucket_rows(bs[i as int], with_time);
                let m_users = self.entries[i].1.per_user.len();
                let mut j: usize = 0;
                while j < m_users
                    invariant
                        n == self.entries.len(),
                        bs == self.buckets(),
                        i < n,
                        m_users == self.entries@[i as int].1.per_user@.len(),
                        rows == bucket_rows(bs[i as int], with_time),
                        0 <= j <= m_users,
                        rows.len() == m_users,
                        match label {
                            Some(ref s) => with_time && s@ == datetime_chars(bs[i as int].0),
                            None => !with_time,
                        },
                        entry_views(r@) =~= r_before + rows.take(j as int),
                    decreases m_users - j,
                {
                    let user = self.entries[i].1.per_user[j].0.clone();
                    let transactions = self.entries[i].1.per_user[j].1;
                    let date_time = match &label {
                        Some(s) => Some(s.clone()),
                        None => None,
                    };
                    let ghost rv = r@;
                    let entry = DappRadarResponseEntry { date_time, user, transactions };
                    let ghost eview = entry@;
                    proof {
                        assert(bs[i as int].1 == self.entries@[i as int].1.users());
                        assert(self.entries@[i as int].1.users()[j as int] == (
                            self.entries@[i as int].1.per_user@[j as int].0@,
                            self.entries@[i as int].1.per_user@[j as int].1,
                        ));
                        assert(eview.user == bs[i as int].1[j as int].0);
                        assert(eview.transactions == bs[i as int].1[j as int].1);
                        assert(eview == rows[j as int]);
                    }
                    r.push(entry);
                    proof {
                        assert(r@.len() == rv.len() + 1);
                        assert(r@[rv.len() as int]@ == rows[j as int]);
                        assert(entry_views(rv).len() == rv.len());
                        assert(rv.len() == r_before.len() + j);
                        assert forall|t: int| 0 <= t < r@.len() implies entry_views(r@)[t] == (
                        r_before + rows.take(j + 1))[t] by {
                            if t < rv.len() {
                                assert(r@[t] == rv[t]);
                                assert(entry_views(rv)[t] == (r_before + rows.take(j as int))[t]);
                                if t >= r_before.len() {
                                    assert((r_before + rows.take(j as int))[t] == rows.take(
                                        j as int,
                                    )[t - r_before.len()]);
                                    assert(rows.take(j as int)[t - r_before.len()] == rows[t
                                        - r_before.len()]);
                                    assert((r_before + rows.take(j + 1))[t] == rows.take(j + 1)[t
                                        - r_before.len()]);
                                    assert(rows.take(j + 1)[t - r_before.len()] == rows[t
                                        - r_before.len()]);
                                }
                            } else {
                                assert(t == rv.len());
                                assert(entry_views(r@)[t] == eview);
                                assert((r_before + rows.take(j + 1))[t] == rows.take(j + 1)[
                                    j as int]);
                                assert(rows.take(j + 1)[j as int] == rows[j as int]);
                            }
                        }
                        assert(entry_views(r@) =~= r_before + rows.take(j + 1));
                    }
                    j += 1;
                }
                proof {
                    assert(rows.take(m_users as int) =~= rows);
                    assert(entry_views(r@) =~= r_before + rows);
                    assert(day_rows_upto(bs, y, m, d, with_time, i + 1) == day_rows_upto(
                        bs,
                        y,
                        m,
                        d,
                        with_time,
                        i as int,
                    ) + rows);
                }
            } else {
                proof {
                    assert(!matches_day(bs[i as int].0, y, m, d));
                    assert(day_rows_upto(bs, y, m, d, with_time, i + 1) =~= day_rows_upto(
                        bs,
                        y,
                        m,
                        d,
                        with_time,
                        i as int,
                    ));
                }
            }
            i += 1;
        }
        r
    }
}


/// The rows of page `page` (pages are numbered from one; page zero returns
/// none and serves only the page count).
pub open spec fn page_slice(rows: Seq<ResponseEntryView>, page: int) -> Seq<ResponseEntryView> {
    if page == 0 {
        Seq::empty()
    } else {
        let lo = if (page - 1) * (PAGE_SIZE as int) < rows.len() {
            (page - 1) * (PAGE_SIZE as int)
        } else {
            rows.len() as int
        };
        let hi = if lo + (PAGE_SIZE as int) < rows.len() {
            lo + (PAGE_SIZE as int)
        } else {
            rows.len() as int
        };
        rows.subrange(lo, hi)
    }
}

/// How many pages `n` rows make, stopping at the largest page count.
pub open spec fn page_count_of(n: int) -> u32 {
    if n == 0 {
        0u32
    } else if (n - 1) / (PAGE_SIZE as int) + 1 > u32::MAX {
        u32::MAX
    } else {
        ((n - 1) / (PAGE_SIZE as int) + 1) as u32
    }
}

impl DappRadarData {
    /// Slices one page out of the collected rows. Page zero returns only the
    /// page count; pages from one return up to [`PAGE_SIZE`] rows each, in
    /// collection order.
    pub fn extract_page(all_results: Vec<DappRadarResponseEntry>, page: usize) -> (r:
        DappRadarResponse)
        ensures
            r.page_count == page_count_of(all_results@.len() as int),
            entry_views(r.results@) == if all_results@.len() == 0 {
                Seq::<ResponseEntryView>::empty()
            } else {
                page_slice(entry_views(all_results@), page as int)
            },
    {
        let len = all_results.len();
        if len == 0 {
            let r = DappRadarResponse { results: Vec::new(), page_count: 0 };
            assert(entry_views(r.results@) =~= Seq::<ResponseEntryView>::empty());
            return r;
        }
        let pc_wide = (len - 1) / PAGE_SIZE + 1;
        let page_count = if pc_wide > u32::MAX as usize {
            u32::MAX
        } else {
            pc_wide as u32
        };
        if page == 0 {
            let r = DappRadarResponse { results: Vec::new(), page_count };
            assert(entry_views(r.results@) =~= page_slice(entry_views(all_results@), 0));
            return r;
        }
        let pm1 = page - 1;
        let lo = if pm1 > len / PAGE_SIZE {
            len
        } else {
            let l = pm1 * PAGE_SIZE;
            proof {
                assert(pm1 * PAGE_SIZE <= (len / PAGE_SIZE) * PAGE_SIZE) by (nonlinear_arith)
                    requires
                        pm1 <= len / PAGE_SIZE,
                ;
                assert((len / PAGE_SIZE) * PAGE_SIZE <= len) by (nonlinear_arith);
            }
            if l > len {
                len
            } else {
                l
            }
        };
        proof {
            if pm1 > len / PAGE_SIZE {
                assert(pm1 * PAGE_SIZE >= len) by (nonlinear_arith)
                    requires
                        pm1 > len / PAGE_SIZE,
                        len >= 0,
                ;
            }
        }
        let mut v = all_results;
        let ghost all = v@;
        let mut tail = v.split_off(lo);
        if tail.len() > PAGE_SIZE {
            let _rest = tail.split_off(PAGE_SIZE);
        }
        proof {
            let rows = entry_views(all);
            let slice = page_slice(rows, page as int);
            assert(entry_views(tail@).len() == slice.len());
            assert forall|t: int| 0 <= t < slice.len() implies entry_views(tail@)[t] == slice[t] by {
                assert(tail@[t] == all[lo + t]);
                assert(rows[lo + t] == all[lo + t]@);
                assert(slice[t] == rows[lo + t]);
            }
            assert(entry_views(tail@) =~= slice);
        }
        DappRadarResponse { results: tail, page_count }
    }
}

/// Derived, bounded-size rolling per-user activity counters, updated
/// incrementally from the event log in strict index order.
///
/// Daily buckets are unbounded; hourly buckets are capped at
/// [`HOURLY_MAX_ENTRIES`], evicting the chronologically first bucket once the
/// cap is exceeded.
pub struct DappRadarData {
    daily: BucketMap,
    hourly: BucketMap,
    next_event_index: u64,
}

/// The daily key of a timestamp: its calendar day, hour zero.
pub open spec fn day_key_of(ts: u64) -> BucketKey {
    let (y, m, d, _h) = crate::calendar::date_of_timestamp(ts);
    (y as u32, m as u8, d as u8, 0u8)
}

/// The hourly key of a timestamp: its calendar day and hour.
pub open spec fn hour_key_of(ts: u64) -> BucketKey {
    let (y, m, d, h) = crate::calendar::date_of_timestamp(ts);
    (y as u32, m as u8, d as u8, h as u8)
}

/// A bucket sequence with the chronologically first buckets evicted until at
/// most `cap` remain.
pub open spec fn capped(
    bs: Seq<(BucketKey, Seq<(Seq<char>, u32)>)>,
    cap: int,
) -> Seq<(BucketKey, Seq<(Seq<char>, u32)>)> {
    if bs.len() > cap {
        bs.skip(bs.len() - cap)
    } else {
        bs
    }
}

impl DappRadarData {
    /// The daily buckets.
    pub closed spec fn daily_buckets(&self) -> Seq<(BucketKey, Seq<(Seq<char>, u32)>)> {
        self.daily.buckets()
    }

    /// The hourly buckets.
    pub closed spec fn hourly_buckets(&self) -> Seq<(BucketKey, Seq<(Seq<char>, u32)>)> {
        self.hourly.buckets()
    }

    /// The log index this data has consumed up to.
    pub closed spec fn next_index(&self) -> u64 {
        self.next_event_index
    }

    pub open spec fn wf(&self) -> bool {
        &&& buckets_wf(self.daily_buckets())
        &&& buckets_wf(self.hourly_buckets())
        &&& self.hourly_buckets().len() <= HOURLY_MAX_ENTRIES
    }

    pub fn new() -> (r: DappRadarData)
        ensures
            r.wf(),
            r.daily_buckets() == Seq::<(BucketKey, Seq<(Seq<char>, u32)>)>::empty(),
            r.hourly_buckets() == Seq::<(BucketKey, Seq<(Seq<char>, u32)>)>::empty(),
            r.next_index() == 0,
    {
        DappRadarData { daily: BucketMap::new(), hourly: BucketMap::new(), next_event_index: 0 }
    }

    /// The next log index to deliver.
    pub fn next_event_index(&self) -> (r: u64)
        ensures
            r == self.next_index(),
    {
        self.next_event_index
    }

    /// Consumes one event. Events must be driven in log-index order: one whose
    /// index is not the next expected is ignored outright, which makes replay
    /// and out-of-order delivery safe. An event without a user touches no
    /// bucket. Otherwise the user's counters in the event's daily and hourly
    /// buckets are bumped, and the oldest hourly buckets are evicted down to
    /// the cap.
    pub fn push_event(&mut self, event: &crate::types::IndexedEvent)
        requires
            old(self).wf(),
            event@.index < u64::MAX,
        ensures
            final(self).wf(),
            event@.index != old(self).next_index() ==> *final(self) == *old(self),
            event@.index == old(self).next_index() ==> {
                &&& final(self).next_index() == event@.index + 1
                &&& (event@.user is None ==> {
                    &&& final(self).daily_buckets() == old(self).daily_buckets()
                    &&& final(self).hourly_buckets() == old(self).hourly_buckets()
                })
                &&& (event@.user matches Some(u) ==> {
                    &&& final(self).daily_buckets() == bumped_buckets(
                        old(self).daily_buckets(),
                        day_key_of(event@.timestamp),
                        u,
                    )
                    &&& final(self).hourly_buckets() == capped(
                        bumped_buckets(
                            old(self).hourly_buckets(),
                            hour_key_of(event@.timestamp),
                            u,
                        ),
                        HOURLY_MAX_ENTRIES as int,
                    )
                })
            },
    {
        if event.index != self.next_event_index {
            return ;
        }
        self.next_event_index = event.index + 1;

        let user = match &event.user {
            Some(u) => u.clone(),
            None => {
                return ;
            },
        };

        let (y, m, d, h) = crate::calendar::timestamp_to_date(event.timestamp);

        self.daily.bump((y, m, d, 0), user.clone());
        let ghost bumped = bumped_buckets(
            old(self).hourly_buckets(),
            hour_key_of(event@.timestamp),
            user@,
        );
        self.hourly.bump((y, m, d, h), user);
        assert(self.hourly.buckets() == bumped);
        let ghost b0 = self.hourly.buckets();
        let ghost daily_snap = self.daily;
        let ghost next_snap = self.next_event_index;
        let total = self.hourly.len();
        let mut evicted: usize = 0;
        while self.hourly.len() > HOURLY_MAX_ENTRIES
            invariant
                self.daily == daily_snap,
                self.next_event_index == next_snap,
                buckets_wf(self.hourly.buckets()),
                self.hourly.buckets() == b0.skip(evicted as int),
                total == b0.len(),
                0 <= evicted <= total,
                evicted > 0 ==> b0.len() - evicted >= HOURLY_MAX_ENTRIES,
            decreases self.hourly.buckets().len(),
        {
            proof {
                assert(b0.skip(evicted as int).skip(1) =~= b0.skip(evicted + 1));
            }
            self.hourly.remove_oldest();
            evicted += 1;
        }
        proof {
            if evicted > 0 {
                assert(b0.len() - evicted == HOURLY_MAX_ENTRIES);
            }
            assert(self.hourly.buckets() =~= capped(b0, HOURLY_MAX_ENTRIES as int));
        }
    }

    /// Hourly rows for one calendar day, labelled with their hour, paginated.
    pub fn hourly(&self, year: u32, month: u8, day: u8, page: usize) -> (r: DappRadarResponse)
        ensures
            ({
                let rows = day_rows(self.hourly_buckets(), year, month, day, true);
                &&& r.page_count == page_count_of(rows.len() as int)
                &&& entry_views(r.results@) == if rows.len() == 0 {
                    Seq::<ResponseEntryView>::empty()
                } else {
                    page_slice(rows, page as int)
                }
            }),
    {
        let all_results = self.hourly.collect_day(year, month, day, true);
        proof {
            assert(entry_views(all_results@) == day_rows(
                self.hourly_buckets(),
                year,
                month,
                day,
                true,
            ));
            assert(all_results@.len() == entry_views(all_results@).len());
        }
        Self::extract_page(all_results, page)
    }

    /// Daily rows for one calendar day, unlabelled, paginated.
    pub fn daily(&self, year: u32, month: u8, day: u8, page: usize) -> (r: DappRadarResponse)
        ensures
            ({
                let rows = day_rows(self.daily_buckets(), year, month, day, false);
                &&& r.page_count == page_count_of(rows.len() as int)
                &&& entry_views(r.results@) == if rows.len() == 0 {
                    Seq::<ResponseEntryView>::empty()
                } else {
                    page_slice(rows, page as int)
                }
            }),
    {
        let all_results = self.daily.collect_day(year, month, day, false);
        proof {
            assert(all_results@.len() == entry_views(all_results@).len());
        }
        Self::extract_page(all_results, page)
    }
}

impl Default for DappRadarData {
    fn default() -> (r: Self)
        ensures
            r.wf(),
            r.daily_buckets() == Seq::<(BucketKey, Seq<(Seq<char>, u32)>)>::empty(),
            r.hourly_buckets() == Seq::<(BucketKey, Seq<(Seq<char>, u32)>)>::empty(),
            r.next_index() == 0,
    {
        DappRadarData::new()
    }
}

/// The derived data kept alongside the log, fed from it in index order.
pub struct IntegrationsData {
    pub dapp_radar: DappRadarData,
}

impl IntegrationsData {
    pub open spec fn wf(&self) -> bool {
        self.dapp_radar.wf()
    }

    pub fn new() -> (r: IntegrationsData)
        ensures
            r.wf(),
            r.dapp_radar.next_index() == 0,
            r.dapp_radar.daily_buckets() == Seq::<(BucketKey, Seq<(Seq<char>, u32)>)>::empty(),
            r.dapp_radar.hourly_buckets() == Seq::<(BucketKey, Seq<(Seq<char>, u32)>)>::empty(),
    {
        IntegrationsData { dapp_radar: DappRadarData::new() }
    }

    /// Feeds one event through to every derived index.
    pub fn push_event(&mut self, event: &crate::types::IndexedEvent)
        requires
            old(self).wf(),
            event@.index < u64::MAX,
        ensures
            final(self).wf(),
            event@.index != old(self).dapp_radar.next_index() ==> *final(self) == *old(self),
            event@.index == old(self).dapp_radar.next_index() ==> {
                &&& final(self).dapp_radar.next_index() == event@.index + 1
                &&& (event@.user is None ==> {
                    &&& final(self).dapp_radar.daily_buckets() == old(
                        self,
                    ).dapp_radar.daily_buckets()
                    &&& final(self).dapp_radar.hourly_buckets() == old(
                        self,
                    ).dapp_radar.hourly_buckets()
                })
                &&& (event@.user matches Some(u) ==> {
                    &&& final(self).dapp_radar.daily_buckets() == bumped_buckets(
                        old(self).dapp_radar.daily_buckets(),
                        day_key_of(event@.timestamp),
                        u,
                    )
                    &&& final(self).dapp_radar.hourly_buckets() == capped(
                        bumped_buckets(
                            old(self).dapp_radar.hourly_buckets(),
                            hour_key_of(event@.timestamp),
                            u,
                        ),
                        HOURLY_MAX_ENTRIES as int,
                    )
                })
            },
    {
        self.dapp_radar.push_event(event);
    }

    /// The lowest log index some derived index still needs, if any does.
    pub fn next_event_index(&self) -> (r: Option<u64>)
        ensures
            r == Some(self.dapp_radar.next_index()),
    {
        Some(self.dapp_radar.next_event_index())
    }
}

impl Default for IntegrationsData {
    fn default() -> (r: Self)
        ensures
            r.wf(),
            r.dapp_radar.next_index() == 0,
    {
        IntegrationsData::new()
    }
}

} // verus!
