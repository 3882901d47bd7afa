//! Publication content: the thread name, the summary card, and the two
//! abstract blocks, in the exact order they are posted. The platform
//! writes themselves (thread creation or rename, message sends) are the
//! caller's side effects; this module fixes what is written and in what
//! order.

use vstd::prelude::*;
use crate::date::timestamp_display;
use crate::paper::{Author, Paper};

verus! {

/// A title as a thread name: cut to at most one hundred user-perceived
/// characters, never splitting one character.
pub open spec fn truncated_title(t: Seq<char>) -> Seq<char> {
    if t.len() <= 100 {
        t
    } else {
        t.take(100)
    }
}

/// Cuts a resolved title down to the platform's thread-name budget.
pub fn truncate_title(title: &str) -> (r: String)
    ensures
        r@ == truncated_title(title@),
{
    let n = title.unicode_len();
    let m = if n < 100 {
        n
    } else {
        100
    };
    let cut = title.substring_char(0, m);
    proof {
        assert(cut@ =~= truncated_title(title@));
    }
    String::from_str(cut)
}

/// One author as the summary card shows it: a markdown link when a
/// profile link exists, the plain name otherwise.
pub open spec fn author_text(a: Author) -> Seq<char> {
    match a.author_url {
        Option::Some(u) => seq!['['] + a.name@ + seq![']', '('] + u@ + seq![')'],
        Option::None => a.name@,
    }
}

/// The authors in source order, comma-joined.
pub open spec fn authors_joined(s: Seq<Author>) -> Seq<char>
    decreases s.len(),
{
    if s.len() == 0 {
        Seq::<char>::empty()
    } else if s.len() == 1 {
        author_text(s[0])
    } else {
        author_text(s[0]) + seq![',', ' '] + authors_joined(s.skip(1))
    }
}

fn author_text_exec(a: &Author) -> (r: String)
    ensures
        r@ == author_text(*a),
{
    match &a.author_url {
        Option::Some(u) => {
            let mut s = String::from_str("[");
            s.append(a.name.as_str());
            s.append("](");
            s.append(u.as_str());
            s.append(")");
            proof {
                reveal_strlit("[");
                reveal_strlit("](");
                reveal_strlit(")");
                assert(("[")@ =~= seq!['[']);
                assert(("](")@ =~= seq![']', '(']);
                assert((")")@ =~= seq![')']);
                assert(s@ =~= author_text(*a));
            }
            s
        },
        Option::None => a.name.clone(),
    }
}

fn authors_joined_exec(list: &Vec<Author>, i: usize) -> (r: String)
    requires
        i <= list@.len(),
    ensures
        r@ == authors_joined(list@.skip(i as int)),
    decreases list@.len() - i,
{
    proof {
        reveal_strlit("");
        reveal_strlit(", ");
    }
    if i == list.len() {
        let r = String::from_str("");
        proof {
            assert(r@ =~= authors_joined(list@.skip(i as int)));
        }
        r
    } else if i + 1 == list.len() {
        let r = author_text_exec(&list[i]);
        proof {
            assert(list@.skip(i as int)[0] == list@[i as int]);
            assert(list@.skip(i as int).len() == 1);
        }
        r
    } else {
        let mut s = author_text_exec(&list[i]);
        s.append(", ");
        let t = authors_joined_exec(list, i + 1);
        s.append(t.as_str());
        proof {
            assert((", ")@ =~= seq![',', ' ']);
            assert(list@.skip(i as int)[0] == list@[i as int]);
            assert(list@.skip(i as int).skip(1) =~= list@.skip(i as int + 1));
            assert(s@ =~= authors_joined(list@.skip(i as int)));
        }
        s
    }
}

/// The structured summary card: title, publication instant, the two
/// derived links, and the rendered author list.
pub struct EmbedCard {
    pub title: String,
    pub published: String,
    pub semantic_scholar_url: String,
    pub connected_papers_url: String,
    pub authors: String,
}

/// The card a given paper yields.
pub open spec fn card_of(p: Paper, card: EmbedCard) -> bool {
    &&& card.title@ == p.title@
    &&& card.published@ == timestamp_display(p.published)
    &&& card.semantic_scholar_url@ == p.semantic_scholar_url@
    &&& card.connected_papers_url@ == p.connected_papers_url@
    &&& card.authors@ == authors_joined(p.authors@)
}

/// Builds the summary card for a resolved paper.
pub fn build_embed(paper: &Paper) -> (card: EmbedCard)
    requires
        paper.published.wf(),
    ensures
        card_of(*paper, card),
{
    let published = paper.published.to_display_string();
    let authors = authors_joined_exec(&paper.authors, 0);
    proof {
        assert(paper.authors@.skip(0) =~= paper.authors@);
    }
    EmbedCard {
        title: paper.title.clone(),
        published,
        semantic_scholar_url: paper.semantic_scholar_url.clone(),
        connected_papers_url: paper.connected_papers_url.clone(),
        authors,
    }
}

/// The original abstract, labelled and fenced.
pub open spec fn summary_block(s: Seq<char>) -> Seq<char> {
    ("**Summary:** ```")@ + s + ("```")@
}

/// The translated abstract, labelled and fenced.
pub open spec fn translated_block(s: Seq<char>) -> Seq<char> {
    ("**Translated:** ```")@ + s + ("```")@
}

/// One message to post: the embed card, or plain content.
pub enum MessageOut {
    Embed(EmbedCard),
    Content(String),
}

/// Everything one publication writes: the thread name to create or
/// rename to, then the messages in the order they must be posted.
pub struct PublishPlan {
    pub thread_name: String,
    pub messages: Vec<MessageOut>,
}

/// Lays out one publication: the truncated title as the thread name, then
/// exactly three messages in order: the summary card, the original
/// abstract block, the translated abstract block. The caller creates or
/// renames the thread and posts the messages in this order, awaiting each
/// before the next.
pub fn publish_plan(paper: &Paper) -> (plan: PublishPlan)
    requires
        paper.published.wf(),
    ensures
        plan.thread_name@ == truncated_title(paper.title@),
        plan.messages@.len() == 3,
        plan.messages@[0] is Embed && card_of(*paper, plan.messages@[0]->Embed_0),
        plan.messages@[1] is Content && plan.messages@[1]->Content_0@ == summary_block(
            paper.summary@,
        ),
        plan.messages@[2] is Content && plan.messages@[2]->Content_0@ == translated_block(
            paper.translated_summary@,
        ),
{
    let thread_name = truncate_title(paper.title.as_str());
    let card = build_embed(paper);
    let mut summary = String::from_str("**Summary:** ```");
    summary.append(paper.summary.as_str());
    summary.append("```");
    let mut translated = String::from_str("**Translated:** ```");
    translated.append(paper.translated_summary.as_str());
    translated.append("```");
    let mut messages: Vec<MessageOut> = Vec::new();
    messages.push(MessageOut::Embed(card));
    messages.push(MessageOut::Content(summary));
    messages.push(MessageOut::Content(translated));
    PublishPlan { thread_name, messages }
}

} // verus!
