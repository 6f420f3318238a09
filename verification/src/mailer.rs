//! Composition of the two outbound messages that answer an abuse report: an
//! acknowledgement to the reporter and a notice to the operator.
//!
//! This crate composes the messages and keeps the sent log; actually handing
//! a message to the mail dispatcher is transport work that the surrounding
//! process performs with the composed values. Under the test configuration
//! (the sentinel API key) nothing is dispatched: the messages are recorded in
//! the in-memory sent log instead, where a test can read them back.

use vstd::prelude::*;

use crate::text::{join_lines, join_with_newlines, seq_views};
use vstd::string::StringExecFns;

verus! {

/// One outbound mail, fully composed.
#[derive(Debug, PartialEq, Eq)]
pub struct ReportMessage {
    pub email_from: String,
    pub email_name: String,
    pub to: String,
    pub content: String,
    pub subject: String,
}

impl Clone for ReportMessage {
    fn clone(&self) -> (res: Self)
        ensures
            res == *self,
    {
        ReportMessage {
            email_from: self.email_from.clone(),
            email_name: self.email_name.clone(),
            to: self.to.clone(),
            content: self.content.clone(),
            subject: self.subject.clone(),
        }
    }
}

/// The subject line shared by both messages.
pub open spec fn report_subject() -> Seq<char> {
    "DMCA Report Initiated"@
}

/// The acknowledgement body sent to the reporter, quoting the reported links.
pub open spec fn ack_content(links: Seq<Seq<char>>) -> Seq<char> {
    "Thanks for reaching out and initiating our DMCA Report procedure.\nYou reported the following links:\n\n"@
        + join_lines(links)
        + "\n\nAn operator will get back to you within 24hrs.\n\nKind Regards,\nAnonPaste Team"@
}

/// The notice body sent to the operator, naming the reporter and the links.
pub open spec fn notice_content(reporter: Seq<char>, links: Seq<Seq<char>>) -> Seq<char> {
    "These links have been reported by "@ + reporter + ":\n\n"@ + join_lines(links)
        + "\n\nAnonPaste Team"@
}

/// The mail sender: its configured identity and the log of messages that were
/// recorded instead of dispatched.
pub struct Mailer {
    pub sendgrid_api_key: String,
    pub email_from: String,
    pub email_name: String,
    pub sent: Vec<ReportMessage>,
}

impl Clone for Mailer {
    fn clone(&self) -> (res: Self)
        ensures
            res.sendgrid_api_key == self.sendgrid_api_key,
            res.email_from == self.email_from,
            res.email_name == self.email_name,
            res.sent@ == self.sent@,
    {
        Mailer {
            sendgrid_api_key: self.sendgrid_api_key.clone(),
            email_from: self.email_from.clone(),
            email_name: self.email_name.clone(),
            sent: self.get_sent_emails(),
        }
    }
}

impl Mailer {
    /// Under the sentinel API key, messages are recorded, never dispatched.
    pub open spec fn is_test_mode(&self) -> bool {
        self.sendgrid_api_key@ == "TEST"@
    }

    /// A mailer with the given identity and an empty sent log.
    pub fn new(sendgrid_api_key: String, email_from: String, email_name: String) -> (m: Mailer)
        ensures
            m.sendgrid_api_key == sendgrid_api_key,
            m.email_from == email_from,
            m.email_name == email_name,
            m.sent@ == Seq::<ReportMessage>::empty(),
    {
        Mailer { sendgrid_api_key, email_from, email_name, sent: Vec::new() }
    }

    /// The messages recorded so far, oldest first.
    pub fn get_sent_emails(&self) -> (r: Vec<ReportMessage>)
        ensures
            r@ == self.sent@,
    {
        let mut r: Vec<ReportMessage> = Vec::new();
        let mut i: usize = 0;
        while i < self.sent.len()
            invariant
                i <= self.sent@.len(),
                r@ == self.sent@.take(i as int),
            decreases self.sent@.len() - i,
        {
            r.push(self.sent[i].clone());
            proof {
                assert(r@ =~= self.sent@.take(i + 1));
            }
            i += 1;
        }
        proof {
            assert(self.sent@.take(self.sent@.len() as int) =~= self.sent@);
        }
        r
    }

    /// Answers an abuse report from `to_email` over `links`: composes the
    /// acknowledgement to the reporter and the notice to the operator, and
    /// returns both for the caller to dispatch. In test mode both are
    /// recorded in the sent log instead, in that order, and the caller is to
    /// dispatch nothing.
    pub fn respond_to(&mut self, to_email: &str, links: &Vec<String>) -> (msgs: (
        ReportMessage,
        ReportMessage,
    ))
        ensures
            final(self).sendgrid_api_key == old(self).sendgrid_api_key,
            final(self).email_from == old(self).email_from,
            final(self).email_name == old(self).email_name,
            msgs.0.email_from == old(self).email_from,
            msgs.0.email_name == old(self).email_name,
            msgs.0.to@ == to_email@,
            msgs.0.subject@ == report_subject(),
            msgs.0.content@ == ack_content(seq_views(links@)),
            msgs.1.email_from == old(self).email_from,
            msgs.1.email_name == old(self).email_name,
            msgs.1.to == old(self).email_from,
            msgs.1.subject@ == report_subject(),
            msgs.1.content@ == notice_content(to_email@, seq_views(links@)),
            final(self).sent@ == if old(self).is_test_mode() {
                old(self).sent@.push(msgs.0).push(msgs.1)
            } else {
                old(self).sent@
            },
    {
        let joined = join_with_newlines(links);

        let mut ack_body =
            "Thanks for reaching out and initiating our DMCA Report procedure.\nYou reported the following links:\n\n".to_owned();
        ack_body.append(joined.as_str());
        ack_body.append(
            "\n\nAn operator will get back to you within 24hrs.\n\nKind Regards,\nAnonPaste Team",
        );
        let ack = ReportMessage {
            email_from: self.email_from.clone(),
            email_name: self.email_name.clone(),
            to: to_email.to_owned(),
            content: ack_body,
            subject: "DMCA Report Initiated".to_owned(),
        };

        let mut notice_body = "These links have been reported by ".to_owned();
        notice_body.append(to_email);
        notice_body.append(":\n\n");
        notice_body.append(joined.as_str());
        notice_body.append("\n\nAnonPaste Team");
        let notice = ReportMessage {
            email_from: self.email_from.clone(),
            email_name: self.email_name.clone(),
            to: self.email_from.clone(),
            content: notice_body,
            subject: "DMCA Report Initiated".to_owned(),
        };

        if self.sendgrid_api_key == "TEST".to_owned() {
            self.sent.push(ack.clone());
            self.sent.push(notice.clone());
        }
        (ack, notice)
    }
}

} // verus!
