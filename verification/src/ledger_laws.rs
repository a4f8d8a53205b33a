//! The books are kept: a domain's traffic in a minute always covers what the ledger says flows have
//! contributed to it, whatever is stored, moved or deleted.
use vstd::prelude::*;

use crate::domain::{AttributionView, FlowView};
use crate::ledger::{Database, DomainMinuteRow, LedgerRow};
use crate::storage::{ContributionView, StatementView, StoredView};

verus! {

/// One of two amounts.
pub open spec fn part(up: bool, upload: int, download: int) -> int {
    if up {
        upload
    } else {
        download
    }
}

/// What is counted for a domain in a minute.
pub open spec fn billed(
    rows: Seq<DomainMinuteRow>,
    mac: Seq<char>,
    domain: Seq<char>,
    minute: i64,
    up: bool,
) -> int
    decreases rows.len(),
{
    if rows.len() == 0 {
        0
    } else {
        billed(rows.drop_last(), mac, domain, minute, up) + if crate::ledger::is_domain_minute(
            rows.last(),
            mac,
            domain,
            minute,
        ) {
            part(up, rows.last().upload, rows.last().download)
        } else {
            0
        }
    }
}

/// The entry was counted for the domain in the minute.
pub open spec fn charges(
    r: LedgerRow,
    mac: Seq<char>,
    domain: Seq<char>,
    minute: i64,
) -> bool {
    r.mac == mac && r.minute_ms == minute && r.domain is Some && r.domain->0.domain == domain
}

/// What an entry adds to what was contributed to a domain in a minute.
pub open spec fn charge(
    r: LedgerRow,
    mac: Seq<char>,
    domain: Seq<char>,
    minute: i64,
    up: bool,
) -> int {
    if charges(r, mac, domain, minute) {
        part(up, r.upload, r.download)
    } else {
        0
    }
}

/// What flows have contributed to a domain in a minute.
pub open spec fn charged(
    rows: Seq<LedgerRow>,
    mac: Seq<char>,
    domain: Seq<char>,
    minute: i64,
    up: bool,
) -> int
    decreases rows.len(),
{
    if rows.len() == 0 {
        0
    } else {
        charged(rows.drop_last(), mac, domain, minute, up) + charge(
            rows.last(),
            mac,
            domain,
            minute,
            up,
        )
    }
}

/// What a flow has contributed over all minutes.
pub open spec fn contributed(rows: Seq<LedgerRow>, id: Seq<char>, up: bool) -> int
    decreases rows.len(),
{
    if rows.len() == 0 {
        0
    } else {
        contributed(rows.drop_last(), id, up) + if rows.last().flow_id == id {
            part(up, rows.last().upload, rows.last().download)
        } else {
            0
        }
    }
}

/// No two rows are about the same domain, device and minute.
pub open spec fn distinct_minutes(rows: Seq<DomainMinuteRow>) -> bool {
    forall|i: int, j: int|
        0 <= i < j < rows.len() ==> !crate::ledger::is_domain_minute(
            #[trigger] rows[j],
            (#[trigger] rows[i]).mac,
            rows[i].domain,
            rows[i].minute_ms,
        )
}

/// No two entries are about the same flow and minute.
pub open spec fn distinct_entries(rows: Seq<LedgerRow>) -> bool {
    forall|i: int, j: int|
        0 <= i < j < rows.len() ==> !crate::ledger::is_entry(
            #[trigger] rows[j],
            (#[trigger] rows[i]).flow_id,
            rows[i].minute_ms,
        )
}

/// Amounts of traffic are not negative.
pub open spec fn amounts_sound(rows: Seq<DomainMinuteRow>) -> bool {
    forall|i: int|
        0 <= i < rows.len() ==> (#[trigger] rows[i]).upload >= 0 && rows[i].download >= 0
}

/// An entry is about something.
pub open spec fn entry_sound(r: LedgerRow) -> bool {
    r.upload >= 0 && r.download >= 0 && (r.upload > 0 || r.download > 0)
}

/// Every entry is about something.
pub open spec fn entries_sound(rows: Seq<LedgerRow>) -> bool {
    forall|i: int| 0 <= i < rows.len() ==> entry_sound(#[trigger] rows[i])
}

/// Domain traffic covers what the ledger says was contributed to it.
pub open spec fn covered(minutes: Seq<DomainMinuteRow>, ledger: Seq<LedgerRow>) -> bool {
    forall|mac: Seq<char>, domain: Seq<char>, minute: i64, up: bool| #[trigger]
        charged(ledger, mac, domain, minute, up) <= billed(minutes, mac, domain, minute, up)
}

/// Domain traffic is exactly what the ledger says was contributed to it.
pub open spec fn matched(minutes: Seq<DomainMinuteRow>, ledger: Seq<LedgerRow>) -> bool {
    forall|mac: Seq<char>, domain: Seq<char>, minute: i64, up: bool| #[trigger]
        charged(ledger, mac, domain, minute, up) == billed(minutes, mac, domain, minute, up)
}

/// Domain traffic and ledger agree.
pub open spec fn balanced(minutes: Seq<DomainMinuteRow>, ledger: Seq<LedgerRow>) -> bool {
    &&& distinct_minutes(minutes)
    &&& distinct_entries(ledger)
    &&& amounts_sound(minutes)
    &&& entries_sound(ledger)
    &&& covered(minutes, ledger)
}

pub proof fn lemma_billed_absent(
    rows: Seq<DomainMinuteRow>,
    mac: Seq<char>,
    domain: Seq<char>,
    minute: i64,
    up: bool,
)
    requires
        !crate::ledger::has_domain_minute(rows, mac, domain, minute),
    ensures
        billed(rows, mac, domain, minute, up) == 0,
    decreases rows.len(),
{
    if rows.len() > 0 {
        let t = rows.drop_last();
        if crate::ledger::has_domain_minute(t, mac, domain, minute) {
            let i = choose|i: int|
                0 <= i < t.len() && crate::ledger::is_domain_minute(
                    #[trigger] t[i],
                    mac,
                    domain,
                    minute,
                );
            assert(rows[i] == t[i]);
        }
        lemma_billed_absent(t, mac, domain, minute, up);
        assert(rows[rows.len() - 1] == rows.last());
    }
}

pub proof fn lemma_prefix_distinct(rows: Seq<DomainMinuteRow>)
    requires
        distinct_minutes(rows),
        rows.len() > 0,
    ensures
        distinct_minutes(rows.drop_last()),
        !crate::ledger::has_domain_minute(
            rows.drop_last(),
            rows.last().mac,
            rows.last().domain,
            rows.last().minute_ms,
        ),
{
    let t = rows.drop_last();
    assert forall|i: int, j: int| 0 <= i < j < t.len() implies !crate::ledger::is_domain_minute(
        #[trigger] t[j],
        (#[trigger] t[i]).mac,
        t[i].domain,
        t[i].minute_ms,
    ) by {
        assert(rows[i] == t[i] && rows[j] == t[j]);
    }
    let l = rows.last();
    if crate::ledger::has_domain_minute(t, l.mac, l.domain, l.minute_ms) {
        let i = choose|i: int|
            0 <= i < t.len() && crate::ledger::is_domain_minute(
                #[trigger] t[i],
                l.mac,
                l.domain,
                l.minute_ms,
            );
        assert(rows[i] == t[i]);
        assert(rows[rows.len() - 1] == l);
    }
}

/// The one row of a domain's minute holds what is counted for it.
pub proof fn lemma_billed_at(
    rows: Seq<DomainMinuteRow>,
    i: int,
    mac: Seq<char>,
    domain: Seq<char>,
    minute: i64,
    up: bool,
)
    requires
        distinct_minutes(rows),
        0 <= i < rows.len(),
        crate::ledger::is_domain_minute(rows[i], mac, domain, minute),
    ensures
        billed(rows, mac, domain, minute, up) == part(up, rows[i].upload, rows[i].download),
    decreases rows.len(),
{
    lemma_prefix_distinct(rows);
    let t = rows.drop_last();
    if i == rows.len() - 1 {
        lemma_billed_absent(t, mac, domain, minute, up);
    } else {
        assert(t[i] == rows[i]);
        lemma_billed_at(t, i, mac, domain, minute, up);
        assert(!crate::ledger::is_domain_minute(rows[rows.len() - 1], mac, domain, minute));
    }
}

pub proof fn lemma_billed_sound(
    rows: Seq<DomainMinuteRow>,
    mac: Seq<char>,
    domain: Seq<char>,
    minute: i64,
    up: bool,
)
    requires
        amounts_sound(rows),
    ensures
        billed(rows, mac, domain, minute, up) >= 0,
    decreases rows.len(),
{
    if rows.len() > 0 {
        let t = rows.drop_last();
        assert forall|i: int| 0 <= i < t.len() implies (#[trigger] t[i]).upload >= 0
            && t[i].download >= 0 by {
            assert(t[i] == rows[i]);
        }
        lemma_billed_sound(t, mac, domain, minute, up);
        assert(rows[rows.len() - 1] == rows.last());
    }
}

/// The rows after those of one domain's minute were changed.
spec fn amended(
    rows: Seq<DomainMinuteRow>,
    mac: Seq<char>,
    a: AttributionView,
    minute: i64,
    upload: int,
    download: int,
) -> Seq<DomainMinuteRow> {
    rows.map_values(
        |r: DomainMinuteRow|
            if crate::ledger::is_domain_minute(r, mac, a.domain, minute) {
                crate::ledger::row_added(r, a, upload, download)
            } else {
                r
            },
    )
}

proof fn lemma_billed_amended(
    rows: Seq<DomainMinuteRow>,
    mac: Seq<char>,
    a: AttributionView,
    minute: i64,
    upload: int,
    download: int,
    m: Seq<char>,
    d: Seq<char>,
    t: i64,
    up: bool,
)
    requires
        distinct_minutes(rows),
    ensures
        billed(amended(rows, mac, a, minute, upload, download), m, d, t, up) == billed(
            rows,
            m,
            d,
            t,
            up,
        ) + if m == mac && d == a.domain && t == minute && crate::ledger::has_domain_minute(
            rows,
            mac,
            a.domain,
            minute,
        ) {
            part(up, upload, download)
        } else {
            0
        },
    decreases rows.len(),
{
    if rows.len() > 0 {
        lemma_prefix_distinct(rows);
        let s = rows.drop_last();
        lemma_billed_amended(s, mac, a, minute, upload, download, m, d, t, up);
        assert(amended(rows, mac, a, minute, upload, download).drop_last() =~= amended(
            s,
            mac,
            a,
            minute,
            upload,
            download,
        ));
        let l = rows.last();
        if crate::ledger::is_domain_minute(l, mac, a.domain, minute) {
            assert(crate::ledger::is_domain_minute(rows[rows.len() - 1], mac, a.domain, minute));
            assert(!crate::ledger::has_domain_minute(s, mac, a.domain, minute));
        } else {
            if crate::ledger::has_domain_minute(s, mac, a.domain, minute) {
                let i = choose|i: int|
                    0 <= i < s.len() && crate::ledger::is_domain_minute(
                        #[trigger] s[i],
                        mac,
                        a.domain,
                        minute,
                    );
                assert(rows[i] == s[i]);
            }
            if crate::ledger::has_domain_minute(rows, mac, a.domain, minute) {
                let i = choose|i: int|
                    0 <= i < rows.len() && crate::ledger::is_domain_minute(
                        #[trigger] rows[i],
                        mac,
                        a.domain,
                        minute,
                    );
                assert(i < s.len());
                assert(s[i] == rows[i]);
            }
        }
    }
}

/// An increase adds exactly its amounts, to its own minute alone.
proof fn lemma_billed_added(
    rows: Seq<DomainMinuteRow>,
    mac: Seq<char>,
    a: AttributionView,
    minute: i64,
    upload: int,
    download: int,
)
    requires
        distinct_minutes(rows),
        amounts_sound(rows),
        upload >= 0,
        download >= 0,
    ensures
        ({
            let after = crate::ledger::domain_minute_added(
                rows,
                mac,
                a,
                minute,
                upload,
                download,
            );
            &&& distinct_minutes(after)
            &&& amounts_sound(after)
            &&& forall|m: Seq<char>, d: Seq<char>, t: i64, up: bool| #[trigger]
                billed(after, m, d, t, up) == billed(rows, m, d, t, up) + if m == mac && d
                    == a.domain && t == minute {
                    part(up, upload, download)
                } else {
                    0
                }
        }),
{
    let after = crate::ledger::domain_minute_added(rows, mac, a, minute, upload, download);
    if crate::ledger::has_domain_minute(rows, mac, a.domain, minute) {
        assert(after =~= amended(rows, mac, a, minute, upload, download));
        assert forall|m: Seq<char>, d: Seq<char>, t: i64, up: bool| #[trigger]
            billed(after, m, d, t, up) == billed(rows, m, d, t, up) + if m == mac && d == a.domain
            && t == minute {
            part(up, upload, download)
        } else {
            0
        } by {
            lemma_billed_amended(rows, mac, a, minute, upload, download, m, d, t, up);
        }
        assert forall|i: int, j: int|
            0 <= i < j < after.len() implies !crate::ledger::is_domain_minute(
            #[trigger] after[j],
            (#[trigger] after[i]).mac,
            after[i].domain,
            after[i].minute_ms,
        ) by {
            assert(!crate::ledger::is_domain_minute(
                rows[j],
                rows[i].mac,
                rows[i].domain,
                rows[i].minute_ms,
            ));
        }
    } else {
        let new = after.last();
        assert(after.drop_last() =~= rows);
        assert forall|i: int, j: int|
            0 <= i < j < after.len() implies !crate::ledger::is_domain_minute(
            #[trigger] after[j],
            (#[trigger] after[i]).mac,
            after[i].domain,
            after[i].minute_ms,
        ) by {
            if j == rows.len() {
                assert(after[i] == rows[i]);
                assert(!crate::ledger::is_domain_minute(rows[i], mac, a.domain, minute));
            } else {
                assert(after[i] == rows[i] && after[j] == rows[j]);
            }
        }
    }
}

/// Two elements that a filter keeps come from two positions in the same order.
pub proof fn lemma_filter_origins<A>(s: Seq<A>, p: spec_fn(A) -> bool, i: int, j: int) -> (r: (
    int,
    int,
))
    requires
        0 <= i < j < s.filter(p).len(),
    ensures
        0 <= r.0 < r.1 < s.len(),
        s[r.0] == s.filter(p)[i],
        s[r.1] == s.filter(p)[j],
    decreases s.len(),
{
    reveal(Seq::filter);
    let t = s.drop_last();
    if p(s.last()) && j == t.filter(p).len() {
        let x = lemma_filter_origin(t, p, i);
        assert(t[x] == s[x]);
        (x, s.len() - 1)
    } else {
        let r = lemma_filter_origins(t, p, i, j);
        assert(t[r.0] == s[r.0] && t[r.1] == s[r.1]);
        r
    }
}

/// An element that a filter keeps comes from some position and meets the condition.
pub proof fn lemma_filter_origin<A>(s: Seq<A>, p: spec_fn(A) -> bool, i: int) -> (r: int)
    requires
        0 <= i < s.filter(p).len(),
    ensures
        0 <= r < s.len(),
        s[r] == s.filter(p)[i],
        p(s[r]),
    decreases s.len(),
{
    reveal(Seq::filter);
    let t = s.drop_last();
    if p(s.last()) && i == t.filter(p).len() {
        s.len() - 1
    } else {
        let r = lemma_filter_origin(t, p, i);
        assert(t[r] == s[r]);
        r
    }
}

/// An element that meets the condition is kept.
pub proof fn lemma_filter_keeps<A>(s: Seq<A>, p: spec_fn(A) -> bool, i: int) -> (r: int)
    requires
        0 <= i < s.len(),
        p(s[i]),
    ensures
        0 <= r < s.filter(p).len(),
        s.filter(p)[r] == s[i],
    decreases s.len(),
{
    reveal(Seq::filter);
    let t = s.drop_last();
    if i == s.len() - 1 {
        t.filter(p).len() as int
    } else {
        assert(t[i] == s[i]);
        lemma_filter_keeps(t, p, i)
    }
}

/// A filter that drops only rows of other minutes, or rows in which nothing is left, does not
/// change what is counted for a minute.
pub proof fn lemma_billed_filtered(
    rows: Seq<DomainMinuteRow>,
    p: spec_fn(DomainMinuteRow) -> bool,
    m: Seq<char>,
    d: Seq<char>,
    t: i64,
    up: bool,
)
    requires
        forall|i: int|
            0 <= i < rows.len() && !p(#[trigger] rows[i]) ==> !crate::ledger::is_domain_minute(
                rows[i],
                m,
                d,
                t,
            ) || (rows[i].upload == 0 && rows[i].download == 0),
    ensures
        billed(rows.filter(p), m, d, t, up) == billed(rows, m, d, t, up),
    decreases rows.len(),
{
    reveal(Seq::filter);
    if rows.len() > 0 {
        let s = rows.drop_last();
        assert forall|i: int|
            0 <= i < s.len() && !p(#[trigger] s[i]) implies !crate::ledger::is_domain_minute(
            s[i],
            m,
            d,
            t,
        ) || (s[i].upload == 0 && s[i].download == 0) by {
            assert(s[i] == rows[i]);
        }
        lemma_billed_filtered(s, p, m, d, t, up);
        assert(rows[rows.len() - 1] == rows.last());
        if p(rows.last()) {
            assert(rows.filter(p).drop_last() =~= s.filter(p));
        }
    }
}

pub proof fn lemma_filter_distinct(rows: Seq<DomainMinuteRow>, p: spec_fn(DomainMinuteRow) -> bool)
    requires
        distinct_minutes(rows),
        amounts_sound(rows),
    ensures
        distinct_minutes(rows.filter(p)),
        amounts_sound(rows.filter(p)),
{
    let after = rows.filter(p);
    assert forall|i: int, j: int| 0 <= i < j < after.len() implies !crate::ledger::is_domain_minute(
        #[trigger] after[j],
        (#[trigger] after[i]).mac,
        after[i].domain,
        after[i].minute_ms,
    ) by {
        let (x, y) = lemma_filter_origins(rows, p, i, j);
        assert(!crate::ledger::is_domain_minute(
            rows[y],
            rows[x].mac,
            rows[x].domain,
            rows[x].minute_ms,
        ));
    }
    assert forall|i: int| 0 <= i < after.len() implies (#[trigger] after[i]).upload >= 0
        && after[i].download >= 0 by {
        let x = lemma_filter_origin(rows, p, i);
        assert(rows[x].upload >= 0);
    }
}

/// The rows of one domain's minute with amounts taken from them.
spec fn lowered(
    rows: Seq<DomainMinuteRow>,
    mac: Seq<char>,
    domain: Seq<char>,
    minute: i64,
    upload: int,
    download: int,
) -> Seq<DomainMinuteRow> {
    rows.map_values(
        |r: DomainMinuteRow|
            if crate::ledger::is_domain_minute(r, mac, domain, minute) && r.upload >= upload
                && r.download >= download {
                DomainMinuteRow {
                    upload: r.upload - upload,
                    download: r.download - download,
                    ..r
                }
            } else {
                r
            },
    )
}

proof fn lemma_billed_lowered(
    rows: Seq<DomainMinuteRow>,
    mac: Seq<char>,
    domain: Seq<char>,
    minute: i64,
    upload: int,
    download: int,
    m: Seq<char>,
    d: Seq<char>,
    t: i64,
    up: bool,
)
    requires
        distinct_minutes(rows),
    ensures
        billed(lowered(rows, mac, domain, minute, upload, download), m, d, t, up) == billed(
            rows,
            m,
            d,
            t,
            up,
        ) - if m == mac && d == domain && t == minute && crate::ledger::can_subtract(
            rows,
            mac,
            domain,
            minute,
            upload,
            download,
        ) {
            part(up, upload, download)
        } else {
            0
        },
    decreases rows.len(),
{
    if rows.len() > 0 {
        lemma_prefix_distinct(rows);
        let s = rows.drop_last();
        lemma_billed_lowered(s, mac, domain, minute, upload, download, m, d, t, up);
        assert(lowered(rows, mac, domain, minute, upload, download).drop_last() =~= lowered(
            s,
            mac,
            domain,
            minute,
            upload,
            download,
        ));
        let l = rows.last();
        assert(rows[rows.len() - 1] == l);
        if crate::ledger::can_subtract(s, mac, domain, minute, upload, download) {
            let i = choose|i: int|
                0 <= i < s.len() && crate::ledger::is_domain_minute(
                    #[trigger] s[i],
                    mac,
                    domain,
                    minute,
                ) && s[i].upload >= upload && s[i].download >= download;
            assert(rows[i] == s[i]);
            assert(!crate::ledger::is_domain_minute(
                rows[rows.len() - 1],
                rows[i].mac,
                rows[i].domain,
                rows[i].minute_ms,
            ));
        }
        if crate::ledger::can_subtract(rows, mac, domain, minute, upload, download) {
            let i = choose|i: int|
                0 <= i < rows.len() && crate::ledger::is_domain_minute(
                    #[trigger] rows[i],
                    mac,
                    domain,
                    minute,
                ) && rows[i].upload >= upload && rows[i].download >= download;
            if i < s.len() {
                assert(s[i] == rows[i]);
            }
        }
    }
}

/// A decrease takes exactly its amounts, from its own minute alone.
proof fn lemma_billed_subtracted(
    rows: Seq<DomainMinuteRow>,
    mac: Seq<char>,
    domain: Seq<char>,
    minute: i64,
    upload: int,
    download: int,
)
    requires
        distinct_minutes(rows),
        amounts_sound(rows),
        crate::ledger::can_subtract(rows, mac, domain, minute, upload, download),
    ensures
        ({
            let after = crate::ledger::domain_minute_subtracted(
                rows,
                mac,
                domain,
                minute,
                upload,
                download,
            );
            &&& distinct_minutes(after)
            &&& amounts_sound(after)
            &&& forall|m: Seq<char>, d: Seq<char>, t: i64, up: bool| #[trigger]
                billed(after, m, d, t, up) == billed(rows, m, d, t, up) - if m == mac && d
                    == domain && t == minute {
                    part(up, upload, download)
                } else {
                    0
                }
        }),
{
    let low = lowered(rows, mac, domain, minute, upload, download);
    let p = |r: DomainMinuteRow|
        !(crate::ledger::is_domain_minute(r, mac, domain, minute) && r.upload == 0 && r.download
            == 0);
    let after = crate::ledger::domain_minute_subtracted(
        rows,
        mac,
        domain,
        minute,
        upload,
        download,
    );
    assert(after =~= low.filter(p));
    assert forall|i: int, j: int| 0 <= i < j < low.len() implies !crate::ledger::is_domain_minute(
        #[trigger] low[j],
        (#[trigger] low[i]).mac,
        low[i].domain,
        low[i].minute_ms,
    ) by {
        assert(!crate::ledger::is_domain_minute(
            rows[j],
            rows[i].mac,
            rows[i].domain,
            rows[i].minute_ms,
        ));
    }
    assert forall|i: int| 0 <= i < low.len() implies (#[trigger] low[i]).upload >= 0
        && low[i].download >= 0 by {
        assert(rows[i].upload >= 0);
    }
    lemma_filter_distinct(low, p);
    assert forall|m: Seq<char>, d: Seq<char>, t: i64, up: bool| #[trigger]
        billed(after, m, d, t, up) == billed(rows, m, d, t, up) - if m == mac && d == domain && t
        == minute {
        part(up, upload, download)
    } else {
        0
    } by {
        lemma_billed_filtered(low, p, m, d, t, up);
        lemma_billed_lowered(rows, mac, domain, minute, upload, download, m, d, t, up);
    }
}

/// Replacing what a minute says of its attribution leaves the amounts alone.
proof fn lemma_billed_marked(
    rows: Seq<DomainMinuteRow>,
    mac: Seq<char>,
    a: AttributionView,
    minute: i64,
)
    requires
        distinct_minutes(rows),
        amounts_sound(rows),
    ensures
        ({
            let after = crate::ledger::domain_minute_marked(rows, mac, a, minute);
            &&& distinct_minutes(after)
            &&& amounts_sound(after)
            &&& forall|m: Seq<char>, d: Seq<char>, t: i64, up: bool| #[trigger]
                billed(after, m, d, t, up) == billed(rows, m, d, t, up)
        }),
{
    let after = crate::ledger::domain_minute_marked(rows, mac, a, minute);
    assert(after =~= amended(rows, mac, a, minute, 0, 0));
    assert forall|m: Seq<char>, d: Seq<char>, t: i64, up: bool| #[trigger]
        billed(after, m, d, t, up) == billed(rows, m, d, t, up) by {
        lemma_billed_amended(rows, mac, a, minute, 0, 0, m, d, t, up);
    }
    assert forall|i: int, j: int| 0 <= i < j < after.len() implies !crate::ledger::is_domain_minute(
        #[trigger] after[j],
        (#[trigger] after[i]).mac,
        after[i].domain,
        after[i].minute_ms,
    ) by {
        assert(!crate::ledger::is_domain_minute(
            rows[j],
            rows[i].mac,
            rows[i].domain,
            rows[i].minute_ms,
        ));
    }
    assert forall|i: int| 0 <= i < after.len() implies (#[trigger] after[i]).upload >= 0
        && after[i].download >= 0 by {
        assert(rows[i].upload >= 0);
    }
}

proof fn lemma_charged_push(
    rows: Seq<LedgerRow>,
    r: LedgerRow,
    m: Seq<char>,
    d: Seq<char>,
    t: i64,
    up: bool,
)
    ensures
        charged(rows.push(r), m, d, t, up) == charged(rows, m, d, t, up) + charge(r, m, d, t, up),
{
    assert(rows.push(r).drop_last() =~= rows);
}

/// Replacing one entry replaces its charge.
proof fn lemma_charged_update(
    rows: Seq<LedgerRow>,
    i: int,
    r: LedgerRow,
    m: Seq<char>,
    d: Seq<char>,
    t: i64,
    up: bool,
)
    requires
        0 <= i < rows.len(),
    ensures
        charged(rows.update(i, r), m, d, t, up) == charged(rows, m, d, t, up) - charge(
            rows[i],
            m,
            d,
            t,
            up,
        ) + charge(r, m, d, t, up),
    decreases rows.len(),
{
    let s = rows.drop_last();
    if i == rows.len() - 1 {
        assert(rows.update(i, r).drop_last() =~= s);
    } else {
        assert(rows.update(i, r).drop_last() =~= s.update(i, r));
        assert(s[i] == rows[i]);
        lemma_charged_update(s, i, r, m, d, t, up);
    }
}

/// What was contributed is never negative, and at least what one entry says.
pub proof fn lemma_charged_at_least(
    rows: Seq<LedgerRow>,
    i: int,
    m: Seq<char>,
    d: Seq<char>,
    t: i64,
    up: bool,
)
    requires
        entries_sound(rows),
    ensures
        charged(rows, m, d, t, up) >= 0,
        0 <= i < rows.len() ==> charged(rows, m, d, t, up) >= charge(rows[i], m, d, t, up),
    decreases rows.len(),
{
    if rows.len() > 0 {
        let s = rows.drop_last();
        assert forall|k: int| 0 <= k < s.len() implies entry_sound(#[trigger] s[k]) by {
            assert(s[k] == rows[k]);
        }
        lemma_charged_at_least(s, i, m, d, t, up);
        assert(entry_sound(rows[rows.len() - 1]));
        if 0 <= i < s.len() {
            assert(s[i] == rows[i]);
        }
    }
}

/// A ledger without some entries charges no more than before.
pub proof fn lemma_charged_filtered(
    rows: Seq<LedgerRow>,
    p: spec_fn(LedgerRow) -> bool,
    m: Seq<char>,
    d: Seq<char>,
    t: i64,
    up: bool,
)
    requires
        entries_sound(rows),
    ensures
        charged(rows.filter(p), m, d, t, up) <= charged(rows, m, d, t, up),
        (forall|i: int|
            0 <= i < rows.len() && p(#[trigger] rows[i]) ==> !charges(rows[i], m, d, t))
            ==> charged(rows.filter(p), m, d, t, up) == 0,
    decreases rows.len(),
{
    reveal(Seq::filter);
    if rows.len() > 0 {
        let s = rows.drop_last();
        assert forall|k: int| 0 <= k < s.len() implies entry_sound(#[trigger] s[k]) by {
            assert(s[k] == rows[k]);
        }
        lemma_charged_filtered(s, p, m, d, t, up);
        assert(entry_sound(rows[rows.len() - 1]));
        if p(rows.last()) {
            assert(rows.filter(p).drop_last() =~= s.filter(p));
        }
        if forall|i: int|
            0 <= i < rows.len() && p(#[trigger] rows[i]) ==> !charges(rows[i], m, d, t) {
            assert forall|i: int| 0 <= i < s.len() && p(#[trigger] s[i]) implies !charges(
                s[i],
                m,
                d,
                t,
            ) by {
                assert(s[i] == rows[i]);
            }
            assert(p(rows[rows.len() - 1]) ==> !charges(rows[rows.len() - 1], m, d, t));
        }
    }
}

pub proof fn lemma_filter_entries(rows: Seq<LedgerRow>, p: spec_fn(LedgerRow) -> bool)
    requires
        distinct_entries(rows),
        entries_sound(rows),
    ensures
        distinct_entries(rows.filter(p)),
        entries_sound(rows.filter(p)),
{
    let after = rows.filter(p);
    assert forall|i: int, j: int| 0 <= i < j < after.len() implies !crate::ledger::is_entry(
        #[trigger] after[j],
        (#[trigger] after[i]).flow_id,
        after[i].minute_ms,
    ) by {
        let (x, y) = lemma_filter_origins(rows, p, i, j);
        assert(!crate::ledger::is_entry(rows[y], rows[x].flow_id, rows[x].minute_ms));
    }
    assert forall|i: int| 0 <= i < after.len() implies entry_sound(#[trigger] after[i]) by {
        let x = lemma_filter_origin(rows, p, i);
        assert(entry_sound(rows[x]));
    }
}

/// An entry as the planner sees it.
pub open spec fn entry_view(r: LedgerRow) -> ContributionView {
    ContributionView {
        minute_ms: r.minute_ms,
        upload_bytes: r.upload as u64,
        download_bytes: r.download as u64,
        domain: r.domain,
    }
}

/// The contributions of a flow, in the order of the ledger.
pub open spec fn entries_of(rows: Seq<LedgerRow>, id: Seq<char>) -> Seq<ContributionView>
    decreases rows.len(),
{
    if rows.len() == 0 {
        Seq::<ContributionView>::empty()
    } else {
        let before = entries_of(rows.drop_last(), id);
        if rows.last().flow_id == id {
            before.push(entry_view(rows.last()))
        } else {
            before
        }
    }
}

/// The entries of a flow are about its own device and have amounts that can be stored.
pub open spec fn entries_owned(rows: Seq<LedgerRow>, id: Seq<char>, mac: Seq<char>) -> bool {
    forall|i: int|
        0 <= i < rows.len() && (#[trigger] rows[i]).flow_id == id ==> rows[i].mac == mac
            && rows[i].upload <= i64::MAX && rows[i].download <= i64::MAX
}

/// The ledger with the entries of a flow among the first `k` rows marked.
spec fn marked_upto(rows: Seq<LedgerRow>, id: Seq<char>, a: AttributionView, k: int) -> Seq<
    LedgerRow,
> {
    Seq::new(
        rows.len(),
        |i: int|
            if i < k && rows[i].flow_id == id {
                LedgerRow { domain: Some(a), ..rows[i] }
            } else {
                rows[i]
            },
    )
}

proof fn lemma_marked_shape(rows: Seq<LedgerRow>, id: Seq<char>, a: AttributionView, k: int)
    requires
        distinct_entries(rows),
        entries_sound(rows),
        0 <= k <= rows.len(),
    ensures
        distinct_entries(marked_upto(rows, id, a, k)),
        entries_sound(marked_upto(rows, id, a, k)),
{
    let after = marked_upto(rows, id, a, k);
    assert forall|i: int, j: int| 0 <= i < j < after.len() implies !crate::ledger::is_entry(
        #[trigger] after[j],
        (#[trigger] after[i]).flow_id,
        after[i].minute_ms,
    ) by {
        assert(!crate::ledger::is_entry(rows[j], rows[i].flow_id, rows[i].minute_ms));
    }
    assert forall|i: int| 0 <= i < after.len() implies entry_sound(#[trigger] after[i]) by {
        assert(entry_sound(rows[i]));
    }
}

/// The bytes of one entry can be moved, and the books balance when they are.
proof fn lemma_move(
    db: Database,
    ledger: Seq<LedgerRow>,
    k: int,
    a: AttributionView,
) -> (dm: Seq<DomainMinuteRow>)
    requires
        0 <= k < ledger.len(),
        balanced(db.domain_minutes, ledger),
        ledger[k].upload <= i64::MAX,
        ledger[k].download <= i64::MAX,
    ensures
        crate::ledger::applied_all(
            db,
            crate::storage::moved(ledger[k].mac, a, entry_view(ledger[k])),
        ) == Some(Database { domain_minutes: dm, ..db }),
        distinct_minutes(dm),
        amounts_sound(dm),
        covered(dm, ledger.update(k, LedgerRow { domain: Some(a), ..ledger[k] })),
        matched(db.domain_minutes, ledger) ==> matched(
            dm,
            ledger.update(k, LedgerRow { domain: Some(a), ..ledger[k] }),
        ),
{
    let r = ledger[k];
    let n = LedgerRow { domain: Some(a), ..r };
    let c = entry_view(r);
    let mac = r.mac;
    let rows = db.domain_minutes;
    let after = ledger.update(k, n);
    assert(entry_sound(r));
    let add_it = StatementView::AddDomainMinute {
        mac_address: mac,
        attribution: a,
        minute_ms: r.minute_ms,
        upload_bytes: c.upload_bytes as i64,
        download_bytes: c.download_bytes as i64,
    };
    assert(c.upload_bytes as i64 == r.upload);
    assert(c.download_bytes as i64 == r.download);
    match r.domain {
        Some(before) => {
            if before.domain == a.domain {
                let dm = crate::ledger::domain_minute_marked(rows, mac, a, r.minute_ms);
                lemma_billed_marked(rows, mac, a, r.minute_ms);
                crate::ledger::lemma_applied_one(
                    db,
                    StatementView::MarkDomainMinute {
                        mac_address: mac,
                        attribution: a,
                        minute_ms: r.minute_ms,
                    },
                );
                assert forall|m: Seq<char>, d: Seq<char>, t: i64, up: bool|
                    charged(after, m, d, t, up) <= billed(dm, m, d, t, up) && (matched(rows, ledger)
                        ==> #[trigger] charged(after, m, d, t, up) == billed(dm, m, d, t, up)) by {
                    lemma_charged_update(ledger, k, n, m, d, t, up);
                    assert(charged(ledger, m, d, t, up) <= billed(rows, m, d, t, up));
                }
                dm
            } else {
                let key = before.domain;
                assert(charges(r, mac, key, r.minute_ms));
                lemma_charged_at_least(ledger, k, mac, key, r.minute_ms, true);
                lemma_charged_at_least(ledger, k, mac, key, r.minute_ms, false);
                assert(charged(ledger, mac, key, r.minute_ms, true) <= billed(
                    rows,
                    mac,
                    key,
                    r.minute_ms,
                    true,
                ));
                assert(charged(ledger, mac, key, r.minute_ms, false) <= billed(
                    rows,
                    mac,
                    key,
                    r.minute_ms,
                    false,
                ));
                if !crate::ledger::has_domain_minute(rows, mac, key, r.minute_ms) {
                    lemma_billed_absent(rows, mac, key, r.minute_ms, true);
                    lemma_billed_absent(rows, mac, key, r.minute_ms, false);
                }
                let i = choose|i: int|
                    0 <= i < rows.len() && crate::ledger::is_domain_minute(
                        #[trigger] rows[i],
                        mac,
                        key,
                        r.minute_ms,
                    );
                lemma_billed_at(rows, i, mac, key, r.minute_ms, true);
                lemma_billed_at(rows, i, mac, key, r.minute_ms, false);
                assert(crate::ledger::can_subtract(
                    rows,
                    mac,
                    key,
                    r.minute_ms,
                    r.upload,
                    r.download,
                ));
                let mid = crate::ledger::domain_minute_subtracted(
                    rows,
                    mac,
                    key,
                    r.minute_ms,
                    r.upload,
                    r.download,
                );
                lemma_billed_subtracted(rows, mac, key, r.minute_ms, r.upload, r.download);
                let dm = crate::ledger::domain_minute_added(
                    mid,
                    mac,
                    a,
                    r.minute_ms,
                    r.upload,
                    r.download,
                );
                lemma_billed_added(mid, mac, a, r.minute_ms, r.upload, r.download);
                let take_it = StatementView::SubtractDomainMinute {
                    mac_address: mac,
                    domain: key,
                    minute_ms: r.minute_ms,
                    upload_bytes: c.upload_bytes as i64,
                    download_bytes: c.download_bytes as i64,
                };
                let both = seq![take_it, add_it];
                assert(both.drop_last() =~= seq![take_it]);
                crate::ledger::lemma_applied_one(db, take_it);
                assert forall|m: Seq<char>, d: Seq<char>, t: i64, up: bool|
                    charged(after, m, d, t, up) <= billed(dm, m, d, t, up) && (matched(rows, ledger)
                        ==> #[trigger] charged(after, m, d, t, up) == billed(dm, m, d, t, up)) by {
                    lemma_charged_update(ledger, k, n, m, d, t, up);
                    assert(charged(ledger, m, d, t, up) <= billed(rows, m, d, t, up));
                    assert(billed(mid, m, d, t, up) == billed(mid, m, d, t, up));
                }
                dm
            }
        },
        None => {
            let dm = crate::ledger::domain_minute_added(
                rows,
                mac,
                a,
                r.minute_ms,
                r.upload,
                r.download,
            );
            lemma_billed_added(rows, mac, a, r.minute_ms, r.upload, r.download);
            crate::ledger::lemma_applied_one(db, add_it);
            assert forall|m: Seq<char>, d: Seq<char>, t: i64, up: bool|
                charged(after, m, d, t, up) <= billed(dm, m, d, t, up) && (matched(rows, ledger)
                    ==> #[trigger] charged(after, m, d, t, up) == billed(dm, m, d, t, up)) by {
                lemma_charged_update(ledger, k, n, m, d, t, up);
                assert(charged(ledger, m, d, t, up) <= billed(rows, m, d, t, up));
            }
            dm
        },
    }
}

/// The bytes of a flow's entries can be moved one after the other, and the books balance.
proof fn lemma_moves(
    db: Database,
    ledger: Seq<LedgerRow>,
    id: Seq<char>,
    mac: Seq<char>,
    a: AttributionView,
    k: int,
) -> (dm: Seq<DomainMinuteRow>)
    requires
        0 <= k <= ledger.len(),
        balanced(db.domain_minutes, ledger),
        entries_owned(ledger, id, mac),
    ensures
        crate::ledger::applied_all(
            db,
            crate::storage::all_moved(mac, a, entries_of(ledger.take(k), id)),
        ) == Some(Database { domain_minutes: dm, ..db }),
        balanced(dm, marked_upto(ledger, id, a, k)),
        matched(db.domain_minutes, ledger) ==> matched(dm, marked_upto(ledger, id, a, k)),
    decreases k,
{
    lemma_marked_shape(ledger, id, a, k);
    if k == 0 {
        assert(ledger.take(0) =~= Seq::<LedgerRow>::empty());
        assert(marked_upto(ledger, id, a, 0) =~= ledger);
        assert(Database { domain_minutes: db.domain_minutes, ..db } == db);
        db.domain_minutes
    } else {
        let dm1 = lemma_moves(db, ledger, id, mac, a, k - 1);
        let db1 = Database { domain_minutes: dm1, ..db };
        let l1 = marked_upto(ledger, id, a, k - 1);
        let l2 = marked_upto(ledger, id, a, k);
        let r = ledger[k - 1];
        assert(ledger.take(k).drop_last() =~= ledger.take(k - 1));
        assert(ledger.take(k).last() == r);
        let cs1 = entries_of(ledger.take(k - 1), id);
        let cs2 = entries_of(ledger.take(k), id);
        if r.flow_id == id {
            assert(cs2.drop_last() =~= cs1);
            assert(cs2.last() == entry_view(r));
            assert(l1[k - 1] == r);
            let dm2 = lemma_move(db1, l1, k - 1, a);
            assert(l1.update(k - 1, LedgerRow { domain: Some(a), ..r }) =~= l2);
            crate::ledger::lemma_applied_append(
                db,
                crate::storage::all_moved(mac, a, cs1),
                crate::storage::moved(mac, a, entry_view(r)),
            );
            assert(Database { domain_minutes: dm2, ..db1 } == Database {
                domain_minutes: dm2,
                ..db
            });
            dm2
        } else {
            assert(l1 =~= l2);
            dm1
        }
    }
}

/// Both are without a domain, or both are attributed to the same one.
pub open spec fn same_domain(a: Option<AttributionView>, b: Option<AttributionView>) -> bool {
    match (a, b) {
        (Some(x), Some(y)) => x.domain == y.domain,
        (None, None) => true,
        _ => false,
    }
}

/// The entry belongs to a stored flow, is about its device and has its domain.
pub open spec fn owned(flows: Seq<FlowView>, r: LedgerRow) -> bool {
    exists|j: int|
        0 <= j < flows.len() && (#[trigger] flows[j]).flow_id == r.flow_id && flows[j].client_mac
            == r.mac && same_domain(flows[j].domain, r.domain)
}

/// No two flows have the same identity.
pub open spec fn distinct_flows(flows: Seq<FlowView>) -> bool {
    forall|i: int, j: int|
        0 <= i < j < flows.len() ==> (#[trigger] flows[i]).flow_id != (
        #[trigger] flows[j]).flow_id
}

/// The flow's counters can be stored, and it has not contributed more than was counted of it.
pub open spec fn flow_sound(ledger: Seq<LedgerRow>, f: FlowView) -> bool {
    &&& f.upload_bytes <= i64::MAX
    &&& f.download_bytes <= i64::MAX
    &&& f.packet_count <= i64::MAX
    &&& contributed(ledger, f.flow_id, true) <= f.upload_bytes
    &&& contributed(ledger, f.flow_id, false) <= f.download_bytes
}

/// The books are in order.
pub open spec fn books(db: Database) -> bool {
    &&& balanced(db.domain_minutes, db.ledger)
    &&& distinct_flows(db.flows)
    &&& forall|i: int| 0 <= i < db.ledger.len() ==> owned(db.flows, #[trigger] db.ledger[i])
    &&& forall|i: int| 0 <= i < db.flows.len() ==> flow_sound(db.ledger, #[trigger] db.flows[i])
    &&& forall|i: int|
        0 <= i < db.flows.len() ==> crate::ledger::knows_device(
            db.devices,
            (#[trigger] db.flows[i]).client_mac,
        )
}

/// The position of a stored flow.
pub open spec fn flow_index(flows: Seq<FlowView>, id: Seq<char>) -> int {
    choose|i: int| 0 <= i < flows.len() && (#[trigger] flows[i]).flow_id == id
}

/// What is stored of a flow.
pub open spec fn state_of(db: Database, id: Seq<char>) -> Option<StoredView> {
    if crate::ledger::knows_flow(db.flows, id) {
        let f = db.flows[flow_index(db.flows, id)];
        Some(
            StoredView {
                counters: crate::storage::counters_of(f),
                last_seen: f.last_seen,
                domain: f.domain,
            },
        )
    } else {
        None
    }
}

/// What is stored after a snapshot of a flow; `None` where a change is refused.
pub open spec fn stored(db: Database, f: FlowView) -> Option<Database> {
    crate::ledger::applied_all(
        db,
        crate::storage::snapshot_changes(
            f,
            state_of(db, f.flow_id),
            entries_of(db.ledger, f.flow_id),
        ),
    )
}

proof fn lemma_contributed_push(rows: Seq<LedgerRow>, r: LedgerRow, id: Seq<char>, up: bool)
    ensures
        contributed(rows.push(r), id, up) == contributed(rows, id, up) + if r.flow_id == id {
            part(up, r.upload, r.download)
        } else {
            0
        },
{
    assert(rows.push(r).drop_last() =~= rows);
}

proof fn lemma_contributed_update(
    rows: Seq<LedgerRow>,
    i: int,
    r: LedgerRow,
    id: Seq<char>,
    up: bool,
)
    requires
        0 <= i < rows.len(),
        r.flow_id == rows[i].flow_id,
    ensures
        contributed(rows.update(i, r), id, up) == contributed(rows, id, up) + if r.flow_id == id {
            part(up, r.upload, r.download) - part(up, rows[i].upload, rows[i].download)
        } else {
            0
        },
    decreases rows.len(),
{
    let s = rows.drop_last();
    if i == rows.len() - 1 {
        assert(rows.update(i, r).drop_last() =~= s);
    } else {
        assert(rows.update(i, r).drop_last() =~= s.update(i, r));
        assert(s[i] == rows[i]);
        lemma_contributed_update(s, i, r, id, up);
    }
}

proof fn lemma_contributed_none(rows: Seq<LedgerRow>, id: Seq<char>, up: bool)
    requires
        forall|i: int| 0 <= i < rows.len() ==> (#[trigger] rows[i]).flow_id != id,
    ensures
        contributed(rows, id, up) == 0,
        entries_of(rows, id) =~= Seq::<ContributionView>::empty(),
    decreases rows.len(),
{
    if rows.len() > 0 {
        let s = rows.drop_last();
        assert forall|i: int| 0 <= i < s.len() implies (#[trigger] s[i]).flow_id != id by {
            assert(s[i] == rows[i]);
        }
        lemma_contributed_none(s, id, up);
        assert(rows[rows.len() - 1] == rows.last());
    }
}

proof fn lemma_contributed_marked(
    rows: Seq<LedgerRow>,
    mark: Seq<char>,
    a: AttributionView,
    id: Seq<char>,
    up: bool,
)
    ensures
        contributed(crate::ledger::entries_marked(rows, mark, a), id, up) == contributed(
            rows,
            id,
            up,
        ),
    decreases rows.len(),
{
    if rows.len() > 0 {
        let s = rows.drop_last();
        lemma_contributed_marked(s, mark, a, id, up);
        assert(crate::ledger::entries_marked(rows, mark, a).drop_last()
            =~= crate::ledger::entries_marked(s, mark, a));
    }
}

/// What a flow has contributed is at least what one of its entries says.
pub proof fn lemma_contributed_at_least(rows: Seq<LedgerRow>, i: int, id: Seq<char>, up: bool)
    requires
        entries_sound(rows),
    ensures
        contributed(rows, id, up) >= 0,
        0 <= i < rows.len() && rows[i].flow_id == id ==> contributed(rows, id, up) >= part(
            up,
            rows[i].upload,
            rows[i].download,
        ),
    decreases rows.len(),
{
    if rows.len() > 0 {
        let s = rows.drop_last();
        assert forall|k: int| 0 <= k < s.len() implies entry_sound(#[trigger] s[k]) by {
            assert(s[k] == rows[k]);
        }
        lemma_contributed_at_least(s, i, id, up);
        assert(entry_sound(rows[rows.len() - 1]));
        if 0 <= i < s.len() {
            assert(s[i] == rows[i]);
        }
    }
}

proof fn lemma_no_entries(rows: Seq<LedgerRow>, id: Seq<char>)
    requires
        entries_of(rows, id).len() == 0,
    ensures
        forall|i: int| 0 <= i < rows.len() ==> (#[trigger] rows[i]).flow_id != id,
    decreases rows.len(),
{
    if rows.len() > 0 {
        let s = rows.drop_last();
        lemma_no_entries(s, id);
        assert forall|i: int| 0 <= i < rows.len() implies (#[trigger] rows[i]).flow_id != id by {
            if i < s.len() {
                assert(s[i] == rows[i]);
            }
        }
    }
}

/// A contribution to the ledger adds exactly its amounts.
proof fn lemma_entry_added(rows: Seq<LedgerRow>, e: LedgerRow)
    requires
        distinct_entries(rows),
        entries_sound(rows),
        entry_sound(e),
        forall|i: int|
            0 <= i < rows.len() && crate::ledger::is_entry(
                #[trigger] rows[i],
                e.flow_id,
                e.minute_ms,
            ) ==> rows[i].mac == e.mac && same_domain(rows[i].domain, e.domain),
    ensures
        ({
            let after = crate::ledger::entry_added(rows, e);
            &&& distinct_entries(after)
            &&& entries_sound(after)
            &&& forall|m: Seq<char>, d: Seq<char>, t: i64, up: bool| #[trigger]
                charged(after, m, d, t, up) == charged(rows, m, d, t, up) + charge(e, m, d, t, up)
            &&& forall|id: Seq<char>, up: bool| #[trigger]
                contributed(after, id, up) == contributed(rows, id, up) + if id == e.flow_id {
                    part(up, e.upload, e.download)
                } else {
                    0
                }
            &&& forall|i: int|
                0 <= i < after.len() ==> ((#[trigger] after[i]).flow_id == e.flow_id && after[i].mac
                    == e.mac && same_domain(after[i].domain, e.domain)) || (i < rows.len()
                    && after[i] == rows[i])
        }),
{
    let after = crate::ledger::entry_added(rows, e);
    if crate::ledger::has_entry(rows, e.flow_id, e.minute_ms) {
        let i = choose|i: int|
            0 <= i < rows.len() && crate::ledger::is_entry(
                #[trigger] rows[i],
                e.flow_id,
                e.minute_ms,
            );
        let n = LedgerRow {
            upload: rows[i].upload + e.upload,
            download: rows[i].download + e.download,
            domain: e.domain,
            ..rows[i]
        };
        assert(entry_sound(rows[i]));
        assert forall|j: int| 0 <= j < rows.len() implies after[j] == rows.update(i, n)[j] by {
            if j != i {
                if j < i {
                    assert(!crate::ledger::is_entry(rows[i], rows[j].flow_id, rows[j].minute_ms));
                } else {
                    assert(!crate::ledger::is_entry(rows[j], rows[i].flow_id, rows[i].minute_ms));
                }
            }
        }
        assert(after =~= rows.update(i, n));
        assert forall|m: Seq<char>, d: Seq<char>, t: i64, up: bool| #[trigger]
            charged(after, m, d, t, up) == charged(rows, m, d, t, up) + charge(e, m, d, t, up) by {
            lemma_charged_update(rows, i, n, m, d, t, up);
        }
        assert forall|id: Seq<char>, up: bool| #[trigger]
            contributed(after, id, up) == contributed(rows, id, up) + if id == e.flow_id {
            part(up, e.upload, e.download)
        } else {
            0
        } by {
            lemma_contributed_update(rows, i, n, id, up);
        }
        assert forall|x: int, y: int| 0 <= x < y < after.len() implies !crate::ledger::is_entry(
            #[trigger] after[y],
            (#[trigger] after[x]).flow_id,
            after[x].minute_ms,
        ) by {
            assert(!crate::ledger::is_entry(rows[y], rows[x].flow_id, rows[x].minute_ms));
        }
        assert forall|x: int| 0 <= x < after.len() implies entry_sound(#[trigger] after[x]) by {
            assert(entry_sound(rows[x]));
        }
    } else {
        assert(after == rows.push(e));
        assert forall|m: Seq<char>, d: Seq<char>, t: i64, up: bool| #[trigger]
            charged(after, m, d, t, up) == charged(rows, m, d, t, up) + charge(e, m, d, t, up) by {
            lemma_charged_push(rows, e, m, d, t, up);
        }
        assert forall|id: Seq<char>, up: bool| #[trigger]
            contributed(after, id, up) == contributed(rows, id, up) + if id == e.flow_id {
            part(up, e.upload, e.download)
        } else {
            0
        } by {
            lemma_contributed_push(rows, e, id, up);
        }
        assert forall|x: int, y: int| 0 <= x < y < after.len() implies !crate::ledger::is_entry(
            #[trigger] after[y],
            (#[trigger] after[x]).flow_id,
            after[x].minute_ms,
        ) by {
            assert(after[x] == rows[x]);
            if y == rows.len() {
                assert(!crate::ledger::is_entry(rows[x], e.flow_id, e.minute_ms));
            } else {
                assert(after[y] == rows[y]);
            }
        }
        assert forall|x: int| 0 <= x < after.len() implies entry_sound(#[trigger] after[x]) by {
            if x < rows.len() {
                assert(entry_sound(rows[x]));
            }
        }
    }
}

/// The counters cover what the flow has contributed.
pub open spec fn counters_cover(
    rows: Seq<LedgerRow>,
    id: Seq<char>,
    upload: int,
    download: int,
) -> bool {
    contributed(rows, id, true) <= upload && contributed(rows, id, false) <= download
}

/// Moving a list of entries and marking them, with the books in balance before and after.
proof fn lemma_reconciled(
    db: Database,
    id: Seq<char>,
    mac: Seq<char>,
    a: AttributionView,
) -> (after: Database)
    requires
        balanced(db.domain_minutes, db.ledger),
        entries_owned(db.ledger, id, mac),
    ensures
        crate::ledger::applied_all(
            db,
            crate::storage::reconciled(id, mac, a, entries_of(db.ledger, id)),
        ) == Some(after),
        after == (Database {
            domain_minutes: after.domain_minutes,
            ledger: crate::ledger::entries_marked(db.ledger, id, a),
            ..db
        }),
        balanced(after.domain_minutes, after.ledger),
        matched(db.domain_minutes, db.ledger) ==> matched(after.domain_minutes, after.ledger),
{
    let n = db.ledger.len() as int;
    let dm = lemma_moves(db, db.ledger, id, mac, a, n);
    assert(db.ledger.take(n) =~= db.ledger);
    let marked = crate::ledger::entries_marked(db.ledger, id, a);
    assert(marked_upto(db.ledger, id, a, n) =~= marked);
    let moves = crate::storage::all_moved(mac, a, entries_of(db.ledger, id));
    let mark = StatementView::MarkContributions { flow_id: id, attribution: a };
    assert(moves.push(mark).drop_last() =~= moves);
    Database { domain_minutes: dm, ledger: marked, ..db }
}

/// Marking the entries of a flow leaves those of others alone.
proof fn lemma_entries_marked(rows: Seq<LedgerRow>, id: Seq<char>, a: AttributionView, o: Seq<char>)
    requires
        o != id,
    ensures
        entries_of(crate::ledger::entries_marked(rows, id, a), o) == entries_of(rows, o),
    decreases rows.len(),
{
    let after = crate::ledger::entries_marked(rows, id, a);
    if rows.len() > 0 {
        lemma_entries_marked(rows.drop_last(), id, a, o);
        assert(after.drop_last() =~= crate::ledger::entries_marked(rows.drop_last(), id, a));
    }
}

/// Giving a stored flow a new attribution keeps domain traffic and ledger in balance.
pub proof fn lemma_reattributed(
    db: Database,
    id: Seq<char>,
    mac: Seq<char>,
    st: StoredView,
    a: AttributionView,
) -> (after: Database)
    requires
        balanced(db.domain_minutes, db.ledger),
        crate::ledger::knows_flow(db.flows, id),
        entries_owned(db.ledger, id, mac),
        st.counters.upload_bytes <= i64::MAX,
        st.counters.download_bytes <= i64::MAX,
        counters_cover(
            db.ledger,
            id,
            st.counters.upload_bytes as int,
            st.counters.download_bytes as int,
        ),
    ensures
        crate::ledger::applied_all(
            db,
            crate::storage::reattribution(id, mac, st, a, entries_of(db.ledger, id)),
        ) == Some(after),
        after == (Database {
            domain_minutes: after.domain_minutes,
            ledger: after.ledger,
            ..db
        }),
        balanced(after.domain_minutes, after.ledger),
        matched(db.domain_minutes, db.ledger) ==> matched(after.domain_minutes, after.ledger),
        forall|i: int|
            0 <= i < after.ledger.len() ==> ((#[trigger] after.ledger[i]).flow_id == id
                && after.ledger[i].mac == mac && after.ledger[i].domain == Some(a)) || (i
                < db.ledger.len() && after.ledger[i] == db.ledger[i] && after.ledger[i].flow_id
                != id),
        counters_cover(
            after.ledger,
            id,
            st.counters.upload_bytes as int,
            st.counters.download_bytes as int,
        ),
        contributed(db.ledger, id, true) == st.counters.upload_bytes ==> contributed(
            after.ledger,
            id,
            true,
        ) == st.counters.upload_bytes,
        contributed(db.ledger, id, false) == st.counters.download_bytes ==> contributed(
            after.ledger,
            id,
            false,
        ) == st.counters.download_bytes,
        forall|o: Seq<char>, up: bool|
            o != id ==> #[trigger] contributed(after.ledger, o, up) == contributed(
                db.ledger,
                o,
                up,
            ),
        forall|o: Seq<char>|
            o != id ==> #[trigger] entries_of(after.ledger, o) == entries_of(db.ledger, o),
{
    let cs = entries_of(db.ledger, id);
    if crate::storage::needs_baseline(st, cs.len()) {
        lemma_no_entries(db.ledger, id);
        lemma_contributed_none(db.ledger, id, true);
        lemma_contributed_none(db.ledger, id, false);
        let c = crate::storage::baseline(st);
        let e = LedgerRow {
            flow_id: id,
            mac,
            minute_ms: c.minute_ms,
            upload: st.counters.upload_bytes as int,
            download: st.counters.download_bytes as int,
            domain: None,
        };
        lemma_entry_added(db.ledger, e);
        assert(!crate::ledger::has_entry(db.ledger, id, c.minute_ms));
        let mid = Database { ledger: db.ledger.push(e), ..db };
        let first = crate::storage::recorded(id, mac, c);
        crate::ledger::lemma_applied_one(db, first);
        assert(crate::ledger::applied(db, first) == Some(mid));
        assert(covered(mid.domain_minutes, mid.ledger)) by {
            assert forall|m: Seq<char>, d: Seq<char>, t: i64, up: bool| #[trigger]
                charged(mid.ledger, m, d, t, up) <= billed(mid.domain_minutes, m, d, t, up) by {
                assert(charged(db.ledger, m, d, t, up) <= billed(db.domain_minutes, m, d, t, up));
            }
        }
        assert(matched(db.domain_minutes, db.ledger) ==> matched(
            mid.domain_minutes,
            mid.ledger,
        )) by {
            if matched(db.domain_minutes, db.ledger) {
                assert forall|m: Seq<char>, d: Seq<char>, t: i64, up: bool| #[trigger]
                    charged(mid.ledger, m, d, t, up) == billed(mid.domain_minutes, m, d, t, up) by {
                    assert(charged(db.ledger, m, d, t, up) == billed(
                        db.domain_minutes,
                        m,
                        d,
                        t,
                        up,
                    ));
                }
            }
        }
        assert(mid.ledger.drop_last() =~= db.ledger);
        assert(entry_view(e) =~= c);
        assert(entries_of(mid.ledger, id) =~= seq![c]);
        let after = lemma_reconciled(mid, id, mac, a);
        crate::ledger::lemma_applied_append(
            db,
            seq![first],
            crate::storage::reconciled(id, mac, a, seq![c]),
        );
        lemma_contributed_marked(mid.ledger, id, a, id, true);
        lemma_contributed_marked(mid.ledger, id, a, id, false);
        assert(contributed(mid.ledger, id, true) == st.counters.upload_bytes);
        assert(contributed(mid.ledger, id, false) == st.counters.download_bytes);
        assert forall|o: Seq<char>, up: bool| o != id implies #[trigger] contributed(
            after.ledger,
            o,
            up,
        ) == contributed(db.ledger, o, up) by {
            lemma_contributed_marked(mid.ledger, id, a, o, up);
        }
        assert forall|o: Seq<char>| o != id implies #[trigger] entries_of(after.ledger, o)
            == entries_of(db.ledger, o) by {
            lemma_entries_marked(mid.ledger, id, a, o);
        }
        after
    } else {
        let after = lemma_reconciled(db, id, mac, a);
        lemma_contributed_marked(db.ledger, id, a, id, true);
        lemma_contributed_marked(db.ledger, id, a, id, false);
        assert forall|o: Seq<char>, up: bool| o != id implies #[trigger] contributed(
            after.ledger,
            o,
            up,
        ) == contributed(db.ledger, o, up) by {
            lemma_contributed_marked(db.ledger, id, a, o, up);
        }
        assert forall|o: Seq<char>| o != id implies #[trigger] entries_of(after.ledger, o)
            == entries_of(db.ledger, o) by {
            lemma_entries_marked(db.ledger, id, a, o);
        }
        after
    }
}

/// The books are in order but for one flow, whose entries have the given attribution already.
pub open spec fn books_but(
    db: Database,
    id: Seq<char>,
    mac: Seq<char>,
    a: Option<AttributionView>,
    upload: int,
    download: int,
) -> bool {
    &&& balanced(db.domain_minutes, db.ledger)
    &&& distinct_flows(db.flows)
    &&& forall|i: int|
        0 <= i < db.ledger.len() ==> if (#[trigger] db.ledger[i]).flow_id == id {
            db.ledger[i].mac == mac && same_domain(a, db.ledger[i].domain)
        } else {
            owned(db.flows, db.ledger[i])
        }
    &&& forall|i: int|
        0 <= i < db.flows.len() && (#[trigger] db.flows[i]).flow_id != id ==> flow_sound(
            db.ledger,
            db.flows[i],
        )
    &&& forall|i: int|
        0 <= i < db.flows.len() && (#[trigger] db.flows[i]).flow_id == id
            ==> db.flows[i].client_mac == mac
    &&& forall|i: int|
        0 <= i < db.flows.len() ==> crate::ledger::knows_device(
            db.devices,
            (#[trigger] db.flows[i]).client_mac,
        )
    &&& crate::ledger::knows_device(db.devices, mac)
    &&& counters_cover(db.ledger, id, upload, download)
}

/// Storing the flow itself brings the books in order.
pub proof fn lemma_flow_noted(db: Database, f: FlowView, upload: int, download: int)
    requires
        books_but(db, f.flow_id, f.client_mac, f.domain, upload, download),
        upload <= f.upload_bytes <= i64::MAX,
        download <= f.download_bytes <= i64::MAX,
        f.packet_count <= i64::MAX,
    ensures
        crate::ledger::applied(db, StatementView::UpsertFlow { flow: f }) == Some(
            Database { flows: crate::ledger::flow_noted(db.flows, f), ..db },
        ),
        books(Database { flows: crate::ledger::flow_noted(db.flows, f), ..db }),
        crate::ledger::knows_flow(crate::ledger::flow_noted(db.flows, f), f.flow_id),
        forall|i: int|
            0 <= i < crate::ledger::flow_noted(db.flows, f).len() && (
            #[trigger] crate::ledger::flow_noted(db.flows, f)[i]).flow_id == f.flow_id ==> {
                let g = crate::ledger::flow_noted(db.flows, f)[i];
                &&& g.client_mac == f.client_mac
                &&& g.domain == f.domain
                &&& g.upload_bytes == f.upload_bytes
                &&& g.download_bytes == f.download_bytes
                &&& g.packet_count == f.packet_count
            },
{
    let flows = crate::ledger::flow_noted(db.flows, f);
    let after = Database { flows, ..db };
    let id = f.flow_id;
    if crate::ledger::knows_flow(db.flows, id) {
        let i = choose|i: int| 0 <= i < db.flows.len() && (#[trigger] db.flows[i]).flow_id == id;
        assert(flows[i].flow_id == id);
        assert forall|x: int, y: int| 0 <= x < y < flows.len() implies (
        #[trigger] flows[x]).flow_id != (#[trigger] flows[y]).flow_id by {
            assert(db.flows[x].flow_id != db.flows[y].flow_id);
        }
        assert forall|k: int| 0 <= k < db.ledger.len() implies owned(
            flows,
            #[trigger] db.ledger[k],
        ) by {
            let r = db.ledger[k];
            if r.flow_id == id {
                assert(flows[i].client_mac == r.mac && same_domain(flows[i].domain, r.domain));
            } else {
                let j = choose|j: int|
                    0 <= j < db.flows.len() && (#[trigger] db.flows[j]).flow_id == r.flow_id
                        && db.flows[j].client_mac == r.mac && same_domain(
                        db.flows[j].domain,
                        r.domain,
                    );
                assert(flows[j] == db.flows[j]);
            }
        }
        assert forall|k: int| 0 <= k < flows.len() implies flow_sound(
            db.ledger,
            #[trigger] flows[k],
        ) by {
            if db.flows[k].flow_id != id {
                assert(flow_sound(db.ledger, db.flows[k]));
            }
        }
        assert forall|k: int| 0 <= k < flows.len() implies crate::ledger::knows_device(
            db.devices,
            (#[trigger] flows[k]).client_mac,
        ) by {
            assert(crate::ledger::knows_device(db.devices, db.flows[k].client_mac));
        }
    } else {
        let n = db.flows.len() as int;
        assert(flows[n] == f);
        assert forall|x: int, y: int| 0 <= x < y < flows.len() implies (
        #[trigger] flows[x]).flow_id != (#[trigger] flows[y]).flow_id by {
            assert(flows[x] == db.flows[x]);
            if y < n {
                assert(flows[y] == db.flows[y]);
            }
        }
        assert forall|k: int| 0 <= k < db.ledger.len() implies owned(
            flows,
            #[trigger] db.ledger[k],
        ) by {
            let r = db.ledger[k];
            if r.flow_id == id {
                assert(flows[n].client_mac == r.mac && same_domain(flows[n].domain, r.domain));
            } else {
                let j = choose|j: int|
                    0 <= j < db.flows.len() && (#[trigger] db.flows[j]).flow_id == r.flow_id
                        && db.flows[j].client_mac == r.mac && same_domain(
                        db.flows[j].domain,
                        r.domain,
                    );
                assert(flows[j] == db.flows[j]);
            }
        }
        assert forall|k: int| 0 <= k < flows.len() implies flow_sound(
            db.ledger,
            #[trigger] flows[k],
        ) by {
            if k < n {
                assert(flows[k] == db.flows[k]);
                assert(flow_sound(db.ledger, db.flows[k]));
            }
        }
        assert forall|k: int| 0 <= k < flows.len() implies crate::ledger::knows_device(
            db.devices,
            (#[trigger] flows[k]).client_mac,
        ) by {
            if k < n {
                assert(flows[k] == db.flows[k]);
            }
        }
    }
}

/// Device traffic after a flow's increase was counted.
pub open spec fn increase_counted(
    rows: Seq<crate::ledger::DeviceMinuteRow>,
    f: FlowView,
    delta: crate::domain::FlowCounters,
) -> Seq<crate::ledger::DeviceMinuteRow> {
    if delta.upload_bytes > 0 || delta.download_bytes > 0 {
        crate::ledger::device_minute_added(
            rows,
            f.client_mac,
            crate::domain::minute_of(f.last_seen as int) as i64,
            delta.upload_bytes as int,
            delta.download_bytes as int,
        )
    } else {
        rows
    }
}

/// Counting an increase that the counters cover keeps the books in order.
proof fn lemma_counted(
    db: Database,
    f: FlowView,
    delta: crate::domain::FlowCounters,
    a: Option<AttributionView>,
) -> (after: Database)
    requires
        books(db),
        crate::ledger::knows_flow(db.flows, f.flow_id),
        forall|i: int|
            0 <= i < db.flows.len() && (#[trigger] db.flows[i]).flow_id == f.flow_id ==> {
                &&& db.flows[i].client_mac == f.client_mac
                &&& db.flows[i].domain == a
                &&& db.flows[i].upload_bytes == f.upload_bytes
                &&& db.flows[i].download_bytes == f.download_bytes
            },
        f.upload_bytes <= i64::MAX,
        f.download_bytes <= i64::MAX,
        delta.upload_bytes <= i64::MAX,
        delta.download_bytes <= i64::MAX,
        counters_cover(
            db.ledger,
            f.flow_id,
            f.upload_bytes - delta.upload_bytes,
            f.download_bytes - delta.download_bytes,
        ),
    ensures
        crate::ledger::applied_all(db, crate::storage::counted(f, delta, a)) == Some(after),
        books(after),
        after.flows == db.flows,
        after.devices == db.devices,
        after.device_minutes == increase_counted(db.device_minutes, f, delta),
        matched(db.domain_minutes, db.ledger) ==> matched(after.domain_minutes, after.ledger),
        forall|o: Seq<char>, up: bool| #[trigger]
            contributed(after.ledger, o, up) == contributed(db.ledger, o, up) + if o
                == f.flow_id {
                part(up, delta.upload_bytes as int, delta.download_bytes as int)
            } else {
                0
            },
{
    let id = f.flow_id;
    let minute = crate::domain::minute_of(f.last_seen as int) as i64;
    let changes = crate::storage::counted(f, delta, a);
    if delta.upload_bytes > 0 || delta.download_bytes > 0 {
        let u = delta.upload_bytes as int;
        let w = delta.download_bytes as int;
        let s1 = StatementView::AddDeviceMinute {
            mac_address: f.client_mac,
            minute_ms: minute,
            upload_bytes: delta.upload_bytes as i64,
            download_bytes: delta.download_bytes as i64,
        };
        let s2 = StatementView::AddContribution {
            flow_id: id,
            mac_address: f.client_mac,
            minute_ms: minute,
            upload_bytes: delta.upload_bytes as i64,
            download_bytes: delta.download_bytes as i64,
            attribution: a,
        };
        let e = LedgerRow {
            flow_id: id,
            mac: f.client_mac,
            minute_ms: minute,
            upload: u,
            download: w,
            domain: a,
        };
        let db1 = crate::ledger::applied(db, s1)->0;
        let ledger = crate::ledger::entry_added(db.ledger, e);
        let db2 = Database { ledger, ..db1 };
        crate::ledger::lemma_applied_one(db, s1);
        assert(seq![s1, s2].drop_last() =~= seq![s1]);
        assert(crate::ledger::applied_all(db, seq![s1, s2]) == Some(db2));
        assert forall|i: int|
            0 <= i < db.ledger.len() && crate::ledger::is_entry(
                #[trigger] db.ledger[i],
                id,
                minute,
            ) implies db.ledger[i].mac == e.mac && same_domain(db.ledger[i].domain, e.domain) by {
            assert(owned(db.flows, db.ledger[i]));
        }
        lemma_entry_added(db.ledger, e);
        let at = choose|i: int| 0 <= i < db.flows.len() && (#[trigger] db.flows[i]).flow_id == id;
        assert forall|i: int| 0 <= i < ledger.len() implies owned(
            db.flows,
            #[trigger] ledger[i],
        ) by {
            let r = ledger[i];
            if r.flow_id == id && r.mac == e.mac && same_domain(r.domain, e.domain) {
                assert(db.flows[at].client_mac == r.mac && same_domain(
                    db.flows[at].domain,
                    r.domain,
                ));
            } else {
                assert(owned(db.flows, db.ledger[i]));
            }
        }
        assert forall|i: int| 0 <= i < db.flows.len() implies flow_sound(
            ledger,
            #[trigger] db.flows[i],
        ) by {
            assert(flow_sound(db.ledger, db.flows[i]));
            assert(contributed(ledger, db.flows[i].flow_id, true) >= 0) by {
                lemma_contributed_at_least(ledger, -1, db.flows[i].flow_id, true);
            }
            assert(contributed(ledger, db.flows[i].flow_id, true) <= db.flows[i].upload_bytes);
            assert(contributed(ledger, db.flows[i].flow_id, false) <= db.flows[i].download_bytes);
        }
        match a {
            Some(x) => {
                let s3 = StatementView::AddDomainMinute {
                    mac_address: f.client_mac,
                    attribution: x,
                    minute_ms: minute,
                    upload_bytes: delta.upload_bytes as i64,
                    download_bytes: delta.download_bytes as i64,
                };
                let dm = crate::ledger::domain_minute_added(
                    db.domain_minutes,
                    f.client_mac,
                    x,
                    minute,
                    u,
                    w,
                );
                lemma_billed_added(db.domain_minutes, f.client_mac, x, minute, u, w);
                let db3 = Database { domain_minutes: dm, ..db2 };
                assert(seq![s1, s2].push(s3).drop_last() =~= seq![s1, s2]);
                assert(crate::ledger::applied(db2, s3) == Some(db3));
                assert forall|m: Seq<char>, d: Seq<char>, t: i64, up: bool|
                    charged(ledger, m, d, t, up) <= billed(dm, m, d, t, up) && (matched(
                        db.domain_minutes,
                        db.ledger,
                    ) ==> #[trigger] charged(ledger, m, d, t, up) == billed(dm, m, d, t, up)) by {
                    assert(charged(db.ledger, m, d, t, up) <= billed(
                        db.domain_minutes,
                        m,
                        d,
                        t,
                        up,
                    ));
                    assert(billed(dm, m, d, t, up) == billed(dm, m, d, t, up));
                }
                db3
            },
            None => {
                assert forall|m: Seq<char>, d: Seq<char>, t: i64, up: bool|
                    charged(ledger, m, d, t, up) <= billed(db.domain_minutes, m, d, t, up) && (
                    matched(db.domain_minutes, db.ledger) ==> #[trigger] charged(
                        ledger,
                        m,
                        d,
                        t,
                        up,
                    ) == billed(db.domain_minutes, m, d, t, up)) by {
                    assert(charged(db.ledger, m, d, t, up) <= billed(
                        db.domain_minutes,
                        m,
                        d,
                        t,
                        up,
                    ));
                }
                db2
            },
        }
    } else {
        db
    }
}

pub proof fn lemma_device_noted(
    devices: Seq<crate::domain::DeviceView>,
    mac: Seq<char>,
    name: Option<Seq<char>>,
    ip: Option<Seq<char>>,
    other: Seq<char>,
)
    ensures
        crate::ledger::knows_device(crate::ledger::device_noted(devices, mac, name, ip), mac),
        crate::ledger::knows_device(devices, other) ==> crate::ledger::knows_device(
            crate::ledger::device_noted(devices, mac, name, ip),
            other,
        ),
{
    let after = crate::ledger::device_noted(devices, mac, name, ip);
    if crate::ledger::knows_device(devices, mac) {
        let i = choose|i: int|
            0 <= i < devices.len() && (#[trigger] devices[i]).mac_address == mac;
        assert(after[i].mac_address == mac);
    } else {
        assert(after[devices.len() as int].mac_address == mac);
    }
    if crate::ledger::knows_device(devices, other) {
        let i = choose|i: int|
            0 <= i < devices.len() && (#[trigger] devices[i]).mac_address == other;
        assert(after[i].mac_address == other);
    }
}

/// The stored flow, if there is one, is of the same device, and its counters have not gone back.
pub open spec fn continues(db: Database, f: FlowView) -> bool {
    crate::ledger::knows_flow(db.flows, f.flow_id) ==> {
        let g = db.flows[flow_index(db.flows, f.flow_id)];
        &&& g.client_mac == f.client_mac
        &&& crate::domain::counters_advance(
            crate::storage::counters_of(g),
            crate::storage::counters_of(f),
        )
    }
}

/// Each flow has contributed exactly what was counted of it.
pub open spec fn all_contributed(db: Database) -> bool {
    forall|i: int|
        0 <= i < db.flows.len() ==> contributed(
            db.ledger,
            (#[trigger] db.flows[i]).flow_id,
            true,
        ) == db.flows[i].upload_bytes && contributed(db.ledger, db.flows[i].flow_id, false)
            == db.flows[i].download_bytes
}

/// With the books in order, storing a snapshot of a flow never fails, and leaves the books in
/// order: the bytes that are to be moved are always there. (A flow keeps its device, and counters
/// that go back are refused before anything is stored.)
pub proof fn storing_keeps_the_books(db: Database, f: FlowView)
    requires
        books(db),
        continues(db, f),
        f.upload_bytes <= i64::MAX,
        f.download_bytes <= i64::MAX,
        f.packet_count <= i64::MAX,
    ensures
        stored(db, f) is Some,
        books(stored(db, f)->0),
        stored(db, f)->0.devices == crate::ledger::device_noted(
            db.devices,
            f.client_mac,
            None,
            Some(f.client_ip),
        ),
        stored(db, f)->0.flows == crate::ledger::flow_noted(
            db.flows,
            FlowView { domain: crate::storage::decided(f, state_of(db, f.flow_id)), ..f },
        ),
        stored(db, f)->0.device_minutes == increase_counted(
            db.device_minutes,
            f,
            crate::storage::increase(f, state_of(db, f.flow_id)),
        ),
        matched(db.domain_minutes, db.ledger) ==> matched(
            stored(db, f)->0.domain_minutes,
            stored(db, f)->0.ledger,
        ),
        all_contributed(db) ==> all_contributed(stored(db, f)->0),
{
    let id = f.flow_id;
    let mac = f.client_mac;
    let st = state_of(db, id);
    let cs = entries_of(db.ledger, id);
    let a = crate::storage::decided(f, st);
    let seen = crate::storage::seen_device(f);
    let noted = crate::storage::stored_flow(f, a);
    let delta = crate::storage::increase(f, st);
    let tail = seq![noted] + crate::storage::counted(f, delta, a);
    let at = flow_index(db.flows, id);
    let g = FlowView { domain: a, ..f };
    // The device.
    let db1 = Database {
        devices: crate::ledger::device_noted(db.devices, mac, None, Some(f.client_ip)),
        ..db
    };
    crate::ledger::lemma_applied_one(db, seen);
    assert(crate::ledger::applied_all(db, seq![seen]) == Some(db1));
    lemma_device_noted(db.devices, mac, None, Some(f.client_ip), mac);
    assert forall|i: int| 0 <= i < db.flows.len() implies crate::ledger::knows_device(
        db1.devices,
        (#[trigger] db.flows[i]).client_mac,
    ) by {
        lemma_device_noted(db.devices, mac, None, Some(f.client_ip), db.flows[i].client_mac);
    }
    // What is stored of the flow.
    let base_up: int = if st is Some {
        st->0.counters.upload_bytes as int
    } else {
        0
    };
    let base_down: int = if st is Some {
        st->0.counters.download_bytes as int
    } else {
        0
    };
    if st is Some {
        assert(0 <= at < db.flows.len() && db.flows[at].flow_id == id);
        assert(flow_sound(db.ledger, db.flows[at]));
        assert forall|i: int|
            0 <= i < db.flows.len() && (#[trigger] db.flows[i]).flow_id == id implies i == at by {
            if i < at {
                assert(db.flows[i].flow_id != db.flows[at].flow_id);
            } else if at < i {
                assert(db.flows[at].flow_id != db.flows[i].flow_id);
            }
        }
        assert forall|i: int|
            0 <= i < db.ledger.len() && (#[trigger] db.ledger[i]).flow_id == id implies {
            &&& db.ledger[i].mac == mac
            &&& db.ledger[i].upload <= i64::MAX
            &&& db.ledger[i].download <= i64::MAX
            &&& same_domain(st->0.domain, db.ledger[i].domain)
        } by {
            assert(owned(db.flows, db.ledger[i]));
            lemma_contributed_at_least(db.ledger, i, id, true);
            lemma_contributed_at_least(db.ledger, i, id, false);
        }
    } else {
        assert forall|i: int| 0 <= i < db.ledger.len() implies (#[trigger] db.ledger[i]).flow_id
            != id by {
            assert(owned(db.flows, db.ledger[i]));
        }
        lemma_contributed_none(db.ledger, id, true);
        lemma_contributed_none(db.ledger, id, false);
    }
    // The attribution.
    let moves = if crate::storage::changes_attribution(f, st) {
        crate::storage::reattribution(id, mac, st->0, a->0, cs)
    } else {
        Seq::<StatementView>::empty()
    };
    let db2 = if crate::storage::changes_attribution(f, st) {
        lemma_reattributed(db1, id, mac, st->0, a->0)
    } else {
        db1
    };
    assert(crate::ledger::applied_all(db1, moves) == Some(db2));
    assert(books_but(db2, id, mac, a, base_up, base_down)) by {
        if crate::storage::changes_attribution(f, st) {
            assert forall|i: int|
                0 <= i < db2.flows.len() && (#[trigger] db2.flows[i]).flow_id
                    != id implies flow_sound(db2.ledger, db2.flows[i]) by {
                assert(flow_sound(db.ledger, db.flows[i]));
                let o = db2.flows[i].flow_id;
                assert(contributed(db2.ledger, o, true) == contributed(db1.ledger, o, true));
                assert(contributed(db2.ledger, o, false) == contributed(db1.ledger, o, false));
            }
            assert forall|i: int| 0 <= i < db2.ledger.len() implies if (
            #[trigger] db2.ledger[i]).flow_id == id {
                db2.ledger[i].mac == mac && same_domain(a, db2.ledger[i].domain)
            } else {
                owned(db2.flows, db2.ledger[i])
            } by {
                if db2.ledger[i].flow_id != id {
                    assert(db2.ledger[i] == db1.ledger[i]);
                    assert(owned(db.flows, db.ledger[i]));
                }
            }
        } else {
            assert forall|i: int| 0 <= i < db2.ledger.len() implies if (
            #[trigger] db2.ledger[i]).flow_id == id {
                db2.ledger[i].mac == mac && same_domain(a, db2.ledger[i].domain)
            } else {
                owned(db2.flows, db2.ledger[i])
            } by {
                assert(owned(db.flows, db.ledger[i]));
            }
            assert forall|i: int|
                0 <= i < db2.flows.len() && (#[trigger] db2.flows[i]).flow_id
                    != id implies flow_sound(db2.ledger, db2.flows[i]) by {
                assert(flow_sound(db.ledger, db.flows[i]));
            }
        }
    }
    // The flow.
    lemma_flow_noted(db2, g, base_up, base_down);
    let db3 = Database { flows: crate::ledger::flow_noted(db2.flows, g), ..db2 };
    crate::ledger::lemma_applied_one(db2, noted);
    assert(crate::ledger::applied_all(db2, seq![noted]) == Some(db3));
    // The increase.
    let db4 = lemma_counted(db3, f, delta, a);
    crate::ledger::lemma_applied_append(
        db2,
        seq![noted],
        crate::storage::counted(f, delta, a),
    );
    assert(crate::ledger::applied_all(db2, tail) == Some(db4));
    crate::ledger::lemma_applied_append(db, seq![seen], moves);
    crate::ledger::lemma_applied_append(db, seq![seen] + moves, tail);
    assert(crate::storage::snapshot_changes(f, st, cs) =~= seq![seen] + moves + tail);
    if all_contributed(db) {
        assert forall|i: int| 0 <= i < db4.flows.len() implies contributed(
            db4.ledger,
            (#[trigger] db4.flows[i]).flow_id,
            true,
        ) == db4.flows[i].upload_bytes && contributed(db4.ledger, db4.flows[i].flow_id, false)
            == db4.flows[i].download_bytes by {
            let o = db4.flows[i].flow_id;
            if i < db.flows.len() {
                assert(o == db.flows[i].flow_id);
            }
            assert(contributed(db4.ledger, o, true) == contributed(db4.ledger, o, true));
            assert(contributed(db4.ledger, o, false) == contributed(db4.ledger, o, false));
            if o != id {
                assert(contributed(db2.ledger, o, true) == contributed(db.ledger, o, true));
                assert(contributed(db2.ledger, o, false) == contributed(db.ledger, o, false));
            }
        }
    }
}

} // verus!
