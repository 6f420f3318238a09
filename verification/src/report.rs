//! The abuse-report intake: a secondary table of free-form reports, listed
//! and deleted by an administrator, plus the two outbound messages composed
//! in answer to each new report.
//!
//! A report's links are stored as one newline-joined column and split back on
//! listing; only links that reference a stored paste are quoted back to the
//! reporter in the outbound acknowledgement.

use vstd::prelude::*;

use crate::error::Error;
use crate::keyed::{
    key_map, lemma_key_map_domain, lemma_key_map_index, lemma_key_map_push, lemma_key_map_remove,
    unique_keys, Keyed,
};
use crate::mailer::{ack_content, notice_content, report_subject, Mailer, ReportMessage};
use crate::text::{
    filter_paste_links, join_lines, join_with_newlines, paste_links, seq_views, split_lines,
    split_newlines,
};

verus! {

/// An inbound abuse report: the offending links, a free-form message, and
/// the reporter's address.
pub struct CreateReport {
    pub links: Vec<String>,
    pub message: String,
    pub email: String,
}

/// A stored report as it is listed back to an administrator.
#[derive(Debug, PartialEq, Eq)]
pub struct Report {
    pub links: Vec<String>,
    pub message: String,
    pub email: String,
}

/// One stored report row: the links joined into a single newline-separated
/// column, filed under a store-assigned id.
pub struct ReportRow {
    pub id: u64,
    pub links: String,
    pub message: String,
    pub email: String,
}

impl Keyed for ReportRow {
    type K = u64;

    open spec fn key(&self) -> u64 {
        self.id
    }
}

/// The report table: rows in insertion order, ids assigned by a counter.
pub struct ReportStore {
    pub rows: Vec<ReportRow>,
    pub next_id: u64,
}

impl View for ReportStore {
    type V = Map<u64, ReportRow>;

    open spec fn view(&self) -> Map<u64, ReportRow> {
        key_map(self.rows@)
    }
}

impl ReportStore {
    /// One row per id, and every assigned id is below the counter.
    pub open spec fn wf(&self) -> bool {
        unique_keys(self.rows@) && forall|i: int|
            0 <= i < self.rows@.len() ==> self.rows@[i].id < self.next_id
    }

    /// An empty table.
    pub fn new() -> (store: ReportStore)
        ensures
            store.wf(),
            store.rows@ == Seq::<ReportRow>::empty(),
            store.next_id == 0,
    {
        ReportStore { rows: Vec::new(), next_id: 0 }
    }
}

impl Report {
    /// Lists every stored report in insertion order, splitting each stored
    /// link column back into the individual links.
    pub fn list(store: &ReportStore) -> (r: Vec<Report>)
        ensures
            r@.len() == store.rows@.len(),
            forall|i: int| 0 <= i < r@.len() ==> {
                &&& seq_views(#[trigger] r@[i].links@) == split_lines(store.rows@[i].links@)
                &&& r@[i].message == store.rows@[i].message
                &&& r@[i].email == store.rows@[i].email
            },
    {
        let mut r: Vec<Report> = Vec::new();
        let mut i: usize = 0;
        while i < store.rows.len()
            invariant
                i <= store.rows@.len(),
                r@.len() == i,
                forall|j: int| 0 <= j < i ==> {
                    &&& seq_views(#[trigger] r@[j].links@) == split_lines(store.rows@[j].links@)
                    &&& r@[j].message == store.rows@[j].message
                    &&& r@[j].email == store.rows@[j].email
                },
            decreases store.rows@.len() - i,
        {
            let row = &store.rows[i];
            let report = Report {
                links: split_newlines(row.links.as_str()),
                message: row.message.clone(),
                email: row.email.clone(),
            };
            let ghost r0 = r@;
            r.push(report);
            proof {
                assert forall|j: int| 0 <= j < i + 1 implies {
                    &&& seq_views(#[trigger] r@[j].links@) == split_lines(store.rows@[j].links@)
                    &&& r@[j].message == store.rows@[j].message
                    &&& r@[j].email == store.rows@[j].email
                } by {
                    if j < i {
                        assert(r@[j] == r0[j]);
                        assert(seq_views(r0[j].links@) == split_lines(store.rows@[j].links@));
                    } else {
                        assert(r@[j] == report);
                    }
                }
            }
            i += 1;
        }
        r
    }

    /// Files a new report under a fresh id, with its links joined into one
    /// newline-separated column, then composes the two outbound messages over
    /// the links that reference a stored paste (see `Mailer::respond_to`) and
    /// returns them for the caller to dispatch.
    pub fn create(store: &mut ReportStore, mailer: &mut Mailer, payload: CreateReport) -> (r:
        Result<(ReportMessage, ReportMessage), Error>)
        requires
            old(store).wf(),
            old(store).next_id < u64::MAX,
        ensures
            final(store).wf(),
            final(mailer).sendgrid_api_key == old(mailer).sendgrid_api_key,
            final(mailer).email_from == old(mailer).email_from,
            final(mailer).email_name == old(mailer).email_name,
            ({
                let quoted = paste_links(seq_views(payload.links@));
                match r {
                    Ok(msgs) => {
                        &&& final(store).next_id == old(store).next_id + 1
                        &&& final(store).rows@.len() == old(store).rows@.len() + 1
                        &&& final(store).rows@.drop_last() == old(store).rows@
                        &&& final(store).rows@.last().id == old(store).next_id
                        &&& final(store).rows@.last().links@ == join_lines(
                            seq_views(payload.links@),
                        )
                        &&& final(store).rows@.last().message == payload.message
                        &&& final(store).rows@.last().email == payload.email
                        &&& msgs.0.email_from == old(mailer).email_from
                        &&& msgs.0.email_name == old(mailer).email_name
                        &&& msgs.0.to@ == payload.email@
                        &&& msgs.0.subject@ == report_subject()
                        &&& msgs.0.content@ == ack_content(quoted)
                        &&& msgs.1.email_from == old(mailer).email_from
                        &&& msgs.1.email_name == old(mailer).email_name
                        &&& msgs.1.to == old(mailer).email_from
                        &&& msgs.1.subject@ == report_subject()
                        &&& msgs.1.content@ == notice_content(payload.email@, quoted)
                        &&& final(mailer).sent@ == if old(mailer).is_test_mode() {
                            old(mailer).sent@.push(msgs.0).push(msgs.1)
                        } else {
                            old(mailer).sent@
                        }
                    },
                    Err(e) => false,
                }
            }),
    {
        let links_txt = join_with_newlines(&payload.links);
        let row = ReportRow {
            id: store.next_id,
            links: links_txt,
            message: payload.message,
            email: payload.email,
        };
        proof {
            assert(forall|i: int|
                0 <= i < store.rows@.len() ==> store.rows@[i].key() != row.key());
            lemma_key_map_push(store.rows@, row);
            lemma_key_map_domain(store.rows@, row.id);
            assert(store.rows@.push(row).drop_last() =~= store.rows@);
        }
        let reporter = row.email.clone();
        store.rows.push(row);
        store.next_id = store.next_id + 1;

        let quoted = filter_paste_links(&payload.links);
        let msgs = mailer.respond_to(reporter.as_str(), &quoted);
        Ok(msgs)
    }

    /// Unconditionally deletes the report filed under `id`. Deleting a
    /// missing id changes nothing and is not an error.
    pub fn delete(store: &mut ReportStore, id: u64) -> (r: Result<(), Error>)
        requires
            old(store).wf(),
        ensures
            final(store).wf(),
            r is Ok,
            final(store)@ == old(store)@.remove(id),
            final(store).next_id == old(store).next_id,
    {
        let mut i: usize = 0;
        while i < store.rows.len()
            invariant
                old(store).wf(),
                store.rows@ == old(store).rows@,
                store.next_id == old(store).next_id,
                i <= store.rows@.len(),
                forall|j: int| 0 <= j < i ==> store.rows@[j].id != id,
            decreases store.rows@.len() - i,
        {
            if store.rows[i].id == id {
                proof {
                    lemma_key_map_index(store.rows@, i as int);
                    lemma_key_map_remove(store.rows@, i as int);
                    assert(forall|a: int|
                        0 <= a < store.rows@.remove(i as int).len()
                            ==> store.rows@.remove(i as int)[a] == if a < i {
                            store.rows@[a]
                        } else {
                            store.rows@[a + 1]
                        });
                }
                store.rows.remove(i);
                return Ok(());
            }
            i += 1;
        }
        proof {
            lemma_key_map_domain(store.rows@, id);
            assert(store@ =~= old(store)@.remove(id));
        }
        Ok(())
    }
}

} // verus!
