//! What holds of the administrator's account: the first one that is created stays, reads back as it
//! was created, and outlives whatever is deleted of the observations.
use vstd::prelude::*;

use crate::domain::DataDeletionResult;
use crate::session::Event;
use crate::sql::{CommandView, SqlValue, SqlView, StorageError};
use crate::storage::StatementView;
use crate::trace_laws::Held;

verus! {

/// The accounts in the order in which they were created, each with its name and password hash.
pub type Accounts = Seq<(Seq<char>, Seq<char>)>;

/// The accounts after one was to be created: it is, while there is none.
pub open spec fn account_created(
    accounts: Accounts,
    username: Seq<char>,
    password_hash: Seq<char>,
) -> Accounts {
    if accounts.len() == 0 {
        seq![(username, password_hash)]
    } else {
        accounts
    }
}

/// The command creates an account.
pub open spec fn creates_account(c: CommandView) -> bool {
    exists|username: Seq<char>, password_hash: Seq<char>|
        c == #[trigger] crate::repository::account_insertion(username, password_hash)
}

/// Accounts are created by the command that does so, and changed by no other.
pub open spec fn keeps_accounts(effect: spec_fn(Accounts, Event) -> Accounts) -> bool {
    &&& forall|a: Accounts, username: Seq<char>, password_hash: Seq<char>, n: usize| #[trigger]
        effect(
            a,
            Event::Execute(crate::repository::account_insertion(username, password_hash), Ok(n)),
        ) == account_created(a, username, password_hash)
    &&& forall|a: Accounts, c: CommandView, n: usize|
        !creates_account(c) ==> #[trigger] effect(a, Event::Execute(c, Ok(n))) == a
}

/// An account is created where there is none and only there, and the number of rows that were
/// changed, which the caller is told by, says so. The accounts that there are stay as they are.
pub proof fn only_the_first_account_is_created(
    effect: spec_fn(Accounts, Event) -> Accounts,
    h: Held<Accounts>,
    before: Seq<Event>,
    after: Seq<Event>,
    username: Seq<char>,
    password_hash: Seq<char>,
    changed: usize,
)
    requires
        keeps_accounts(effect),
        after == crate::trace::after_command(
            before,
            crate::repository::account_insertion(username, password_hash),
            Ok(changed),
        ),
        changed == crate::trace_laws::replayed(effect, h, after).now.len()
            - crate::trace_laws::replayed(effect, h, before).now.len(),
    ensures
        ({
            let accounts = crate::trace_laws::replayed(effect, h, before).now;
            &&& changed == 1 <==> accounts.len() == 0
            &&& crate::trace_laws::replayed(effect, h, after).now == account_created(
                accounts,
                username,
                password_hash,
            )
            &&& accounts.len() > 0 ==> crate::trace_laws::replayed(effect, h, after).now
                == accounts
        }),
{
    assert(after.drop_last() =~= before);
}

/// An account as it is stored.
pub open spec fn account_row(a: (Seq<char>, Seq<char>)) -> Seq<SqlView> {
    seq![crate::sql::text_param(a.0), crate::sql::text_param(a.1)]
}

/// The account that was created first is the one that is found; where there is none, none is found.
pub proof fn first_account_reads_back(
    accounts: Accounts,
    rows: Seq<Vec<SqlValue>>,
    r: Result<Option<(String, String)>, StorageError>,
)
    requires
        crate::sql::rows_view(rows) == accounts.take(
            if accounts.len() > 0 {
                1
            } else {
                0
            },
        ).map_values(|a: (Seq<char>, Seq<char>)| account_row(a)),
        crate::repository::account_read(r, rows),
    ensures
        r is Ok,
        match r->Ok_0 {
            Some(found) => accounts.len() > 0 && (found.0@, found.1@) == accounts[0],
            None => accounts.len() == 0,
        },
{
    if accounts.len() > 0 {
        let row = account_row(accounts[0]);
        assert(crate::sql::rows_view(rows)[0] == row);
        assert(row.len() == 2);
        assert(row[0] == crate::sql::text_param(accounts[0].0));
        assert(row[1] == crate::sql::text_param(accounts[0].1));
    }
}

/// A change whose commands do not take two texts creates no account.
spec fn spares_accounts(s: StatementView) -> bool {
    forall|k: int|
        0 <= k < crate::sqlite::commands_of(s).len() ==> {
            let params = (#[trigger] crate::sqlite::commands_of(s)[k]).params;
            params.len() != 2 || params[0] is Integer
        }
}

proof fn lemma_spared(
    effect: spec_fn(Accounts, Event) -> Accounts,
    h: Held<Accounts>,
    log: Seq<Event>,
    s: StatementView,
    n: Seq<usize>,
    k: int,
)
    requires
        keeps_accounts(effect),
        spares_accounts(s),
        0 <= k <= crate::sqlite::commands_of(s).len(),
    ensures
        crate::trace_laws::replayed(
            effect,
            h,
            log + crate::trace::executed(crate::sqlite::commands_of(s), n).take(k),
        ) == crate::trace_laws::replayed(effect, h, log),
    decreases k,
{
    let commands = crate::sqlite::commands_of(s);
    let events = crate::trace::executed(commands, n);
    if k == 0 {
        assert(log + events.take(0) =~= log);
    } else {
        lemma_spared(effect, h, log, s, n, k - 1);
        assert((log + events.take(k)).drop_last() =~= log + events.take(k - 1));
        let c = commands[k - 1];
        assert((log + events.take(k)).last() == Event::Execute(c, Ok(n[k - 1])));
        assert(!creates_account(c)) by {
            if creates_account(c) {
                let (u, p) = choose|u: Seq<char>, p: Seq<char>|
                    c == #[trigger] crate::repository::account_insertion(u, p);
                assert(c.params.len() == 2);
                assert(c.params[0] == crate::sql::text_param(u));
            }
        }
        let held = crate::trace_laws::replayed(effect, h, log);
        assert(effect(held.now, Event::Execute(c, Ok(n[k - 1]))) == held.now);
    }
}

proof fn lemma_changes_spare(
    effect: spec_fn(Accounts, Event) -> Accounts,
    h: Held<Accounts>,
    before: Seq<Event>,
    after: Seq<Event>,
    s: Seq<StatementView>,
    n: Seq<Seq<usize>>,
)
    requires
        keeps_accounts(effect),
        forall|k: int| 0 <= k < s.len() ==> spares_accounts(#[trigger] s[k]),
        crate::trace::changes_done(before, after, s, n),
    ensures
        crate::trace_laws::replayed(effect, h, after) == crate::trace_laws::replayed(
            effect,
            h,
            before,
        ),
    decreases s.len(),
{
    if s.len() == 0 {
        assert(after =~= before);
    } else {
        let s1 = s.drop_last();
        let n1 = n.drop_last();
        let mid = before + crate::trace::events_of(s1, n1);
        let commands = crate::sqlite::commands_of(s.last());
        let events = crate::trace::executed(commands, n.last());
        assert forall|k: int| 0 <= k < s1.len() implies spares_accounts(#[trigger] s1[k])
            && crate::trace::rows_changed(crate::sqlite::commands_of(s1[k]), n1[k]) by {
            assert(s1[k] == s[k] && n1[k] == n[k]);
            assert(spares_accounts(s[k]));
        }
        lemma_changes_spare(effect, h, before, mid, s1, n1);
        assert(spares_accounts(s[s.len() - 1]));
        lemma_spared(effect, h, mid, s.last(), n.last(), commands.len() as int);
        assert(events.take(commands.len() as int) =~= events);
        assert(after =~= mid + events);
    }
}

/// Removing a device, with everything that was observed of it, leaves the accounts as they are.
pub proof fn device_deletions_keep_accounts(
    effect: spec_fn(Accounts, Event) -> Accounts,
    h: Held<Accounts>,
    before: Seq<Event>,
    after: Seq<Event>,
    mac: Seq<char>,
    r: Option<DataDeletionResult>,
)
    requires
        keeps_accounts(effect),
        crate::repository::device_deletion_done(before, after, mac, r),
    ensures
        crate::trace_laws::replayed(effect, h, after) == (Held {
            now: crate::trace_laws::replayed(effect, h, before).now,
            saved: None,
        }),
{
    let start = crate::trace::begun(before);
    let mid = choose|mid: Seq<Event>| #[trigger]
        crate::trace::committed(mid, after) && match r {
            None => crate::trace::device_unknown(start, mid, mac),
            Some(done) => crate::trace::device_gone(start, mid, mac, done),
        };
    assert(start.drop_last() =~= before);
    assert(after.drop_last() =~= mid);
    let known = crate::repository::known_query(mac);
    match r {
        None => {
            let found = choose|found: Seq<Seq<SqlView>>|
                mid == #[trigger] crate::trace::looked_for(start, mac, found) && found.len() == 0;
            crate::replay_laws::lemma_asked(effect, h, start, known, Ok(found));
        },
        Some(done) => {
            let s = crate::storage::device_deleted(mac);
            let (counting, n) = choose|counting: Seq<Event>, n: Seq<Seq<usize>>|
                {
                    &&& #[trigger] crate::trace::device_counted(
                        start,
                        counting,
                        mac,
                        done.flows_deleted,
                        done.contributions_deleted,
                    )
                    &&& #[trigger] crate::trace::changes_done(counting, mid, s, n)
                };
            let flows = crate::repository::flow_count(mac);
            let more = crate::repository::contribution_count(mac);
            let (found, part) = choose|found: Seq<Seq<SqlView>>, part: Seq<Event>|
                found.len() > 0 && #[trigger] crate::trace::counted(
                    #[trigger] crate::trace::looked_for(start, mac, found),
                    part,
                    flows,
                    Ok(done.flows_deleted),
                ) && crate::trace::counted(part, counting, more, Ok(done.contributions_deleted));
            let looked = crate::trace::looked_for(start, mac, found);
            crate::replay_laws::lemma_asked(effect, h, start, known, Ok(found));
            crate::replay_laws::lemma_counting(
                effect,
                h,
                looked,
                part,
                flows,
                Ok(done.flows_deleted),
            );
            crate::replay_laws::lemma_counting(
                effect,
                h,
                part,
                counting,
                more,
                Ok(done.contributions_deleted),
            );
            assert forall|k: int| 0 <= k < s.len() implies spares_accounts(#[trigger] s[k]) by {
                assert(crate::sqlite::commands_of(s[k]).len() == 1);
                assert(crate::sqlite::commands_of(s[k])[0].params.len() == 1);
            }
            lemma_changes_spare(effect, h, counting, mid, s, n);
        },
    }
}

/// Removing a range of time leaves the accounts as they are.
pub proof fn range_deletions_keep_accounts(
    effect: spec_fn(Accounts, Event) -> Accounts,
    h: Held<Accounts>,
    before: Seq<Event>,
    after: Seq<Event>,
    from_ms: i64,
    to_ms: i64,
    done: DataDeletionResult,
)
    requires
        keeps_accounts(effect),
        crate::repository::range_deletion_done(before, after, from_ms, to_ms, done),
    ensures
        crate::trace_laws::replayed(effect, h, after) == (Held {
            now: crate::trace_laws::replayed(effect, h, before).now,
            saved: None,
        }),
{
    let start = crate::trace::begun(before);
    let mid = choose|mid: Seq<Event>| #[trigger]
        crate::trace::range_gone(start, mid, from_ms, to_ms, done) && crate::trace::committed(
            mid,
            after,
        );
    assert(start.drop_last() =~= before);
    assert(after.drop_last() =~= mid);
    let s = crate::storage::range_deleted(from_ms, to_ms);
    let (counting, n) = choose|counting: Seq<Event>, n: Seq<Seq<usize>>|
        #[trigger] crate::trace::range_counted(
            start,
            counting,
            from_ms,
            to_ms,
            done.flows_deleted,
            done.contributions_deleted,
        ) && #[trigger] crate::trace::changes_done(counting, mid, s, n);
    let first = crate::repository::contributions_in(from_ms, to_ms);
    let second = crate::repository::flows_in(from_ms, to_ms);
    let part = choose|part: Seq<Event>| #[trigger]
        crate::trace::counted(start, part, first, Ok(done.contributions_deleted))
            && crate::trace::counted(part, counting, second, Ok(done.flows_deleted));
    crate::replay_laws::lemma_counting(
        effect,
        h,
        start,
        part,
        first,
        Ok(done.contributions_deleted),
    );
    crate::replay_laws::lemma_counting(effect, h, part, counting, second, Ok(done.flows_deleted));
    assert forall|k: int| 0 <= k < s.len() implies spares_accounts(#[trigger] s[k]) by {
        assert(crate::sqlite::commands_of(s[k]).len() == 1);
        assert(crate::sqlite::commands_of(s[k])[0].params[0] is Integer);
    }
    lemma_changes_spare(effect, h, counting, mid, s, n);
}

/// A cleanup leaves the accounts as they are.
pub proof fn cleanups_keep_accounts(
    effect: spec_fn(Accounts, Event) -> Accounts,
    h: Held<Accounts>,
    before: Seq<Event>,
    after: Seq<Event>,
    flow_cutoff: i64,
    aggregate_cutoff: i64,
    n: Seq<Seq<usize>>,
)
    requires
        keeps_accounts(effect),
        crate::trace::changes_done(
            before,
            after,
            crate::storage::expired_deleted(flow_cutoff, aggregate_cutoff),
            n,
        ),
    ensures
        crate::trace_laws::replayed(effect, h, after) == crate::trace_laws::replayed(
            effect,
            h,
            before,
        ),
{
    let s = crate::storage::expired_deleted(flow_cutoff, aggregate_cutoff);
    assert forall|k: int| 0 <= k < s.len() implies spares_accounts(#[trigger] s[k]) by {
        assert(crate::sqlite::commands_of(s[k]).len() == 1);
        assert(crate::sqlite::commands_of(s[k])[0].params.len() == 1);
    }
    lemma_changes_spare(effect, h, before, after, s, n);
}

} // verus!
