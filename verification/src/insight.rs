//! Insights that a language model draws from a monologue, as it writes them down in JSON.

use crate::json::{
    items_view, lemma_list_view, members_are_found_by_their_keys, parsed_document, Json, JsonView,
};
use crate::text::starts_with_char;
use vstd::prelude::*;

verus! {

/// A conclusion worth remembering. The importance is held as the bits of a double.
#[derive(Debug, PartialEq, Eq)]
pub struct Insight {
    pub content: String,
    pub importance: u64,
}

/// An insight in specifications.
pub struct InsightView {
    pub content: Seq<char>,
    pub importance: u64,
}

impl View for Insight {
    type V = InsightView;

    open spec fn view(&self) -> InsightView {
        InsightView { content: self.content@, importance: self.importance }
    }
}

/// What insights hold.
pub open spec fn insights_view(insights: Seq<Insight>) -> Seq<InsightView> {
    insights.map_values(|i: Insight| i@)
}

/// An item as an insight: one with a text as its content and a number as its importance.
pub open spec fn insight_of(item: JsonView) -> Option<InsightView> {
    match (item.get("content"@), item.get("importance"@)) {
        (Some(content), Some(importance)) => match (content.as_text(), importance.as_number()) {
            (Some(content), Some(importance)) => Some(InsightView { content, importance }),
            _ => None,
        },
        _ => None,
    }
}

/// The insights among the items, in order. Items of another form are skipped.
pub open spec fn insights_among(items: Seq<JsonView>) -> Seq<InsightView>
    decreases items.len(),
{
    if items.len() == 0 {
        Seq::empty()
    } else {
        let earlier = insights_among(items.drop_last());
        match insight_of(items.last()) {
            Some(insight) => earlier.push(insight),
            None => earlier,
        }
    }
}

/// What a model's answer holds.
#[derive(Debug, PartialEq, Eq)]
pub enum InsightReading {
    /// The answer is no JSON document.
    NotJson,
    /// The document has no list of insights.
    NoList,
    /// The insights of the document.
    Insights(Vec<Insight>),
}

/// What a model's answer holds, in specifications.
pub enum InsightReadingView {
    NotJson,
    NoList,
    Insights(Seq<InsightView>),
}

impl View for InsightReading {
    type V = InsightReadingView;

    open spec fn view(&self) -> InsightReadingView {
        match self {
            InsightReading::NotJson => InsightReadingView::NotJson,
            InsightReading::NoList => InsightReadingView::NoList,
            InsightReading::Insights(insights) => InsightReadingView::Insights(
                insights_view(insights@),
            ),
        }
    }
}

/// What an answer holds that parses as `document`, or does not parse.
pub open spec fn reading_of(document: Option<JsonView>) -> InsightReadingView {
    match document {
        None => InsightReadingView::NotJson,
        Some(document) => match document.get("insights"@) {
            Some(insights) => match insights.as_list() {
                Some(items) => InsightReadingView::Insights(insights_among(items)),
                None => InsightReadingView::NoList,
            },
            None => InsightReadingView::NoList,
        },
    }
}

/// An item as an insight.
pub fn read_insight(item: &Json) -> (insight: Option<Insight>)
    ensures
        insight_of(item@) == (match insight {
            Some(i) => Some(i@),
            None => None,
        }),
{
    let content: Option<&String> = match item.get("content") {
        Some(content) => content.as_text(),
        None => None,
    };
    let importance: Option<u64> = match item.get("importance") {
        Some(importance) => importance.as_number(),
        None => None,
    };
    match (content, importance) {
        (Some(content), Some(importance)) => Some(
            Insight { content: content.clone(), importance },
        ),
        _ => None,
    }
}

/// The insights among the items, in order.
pub fn read_insights(items: &Vec<Json>) -> (insights: Vec<Insight>)
    ensures
        insights_view(insights@) == insights_among(items_view(items@)),
{
    let ghost view = items_view(items@);
    let mut insights: Vec<Insight> = Vec::new();
    let mut i: usize = 0;
    assert(insights_view(insights@) == Seq::<InsightView>::empty());
    while i < items.len()
        invariant
            i <= items.len(),
            view == items_view(items@),
            insights_view(insights@) == insights_among(view.take(i as int)),
        decreases items.len() - i,
    {
        let ghost before = insights@;
        assert(view.take(i + 1).drop_last() == view.take(i as int));
        if let Some(insight) = read_insight(&items[i]) {
            insights.push(insight);
            assert(insights_view(insights@) == insights_view(before).push(insight@));
        }
        i = i + 1;
    }
    assert(view.take(i as int) == view);
    insights
}

/// What an answer holds that parses as `document`, or does not parse.
pub fn digest_document(document: &Option<Json>) -> (reading: InsightReading)
    ensures
        reading@ == reading_of(
            match document {
                Some(d) => Some(d@),
                None => None,
            },
        ),
{
    match document {
        None => InsightReading::NotJson,
        Some(document) => match document.get("insights") {
            Some(Json::List(items)) => {
                proof {
                    lemma_list_view(*items);
                }
                InsightReading::Insights(read_insights(items))
            },
            _ => InsightReading::NoList,
        },
    }
}

/// An answer with the opening brace that it was given to go on from, where it left it out.
pub open spec fn completed(answer: Seq<char>) -> Seq<char> {
    if answer.len() > 0 && answer[0] == '{' {
        answer
    } else {
        "{"@ + answer
    }
}

/// Puts the opening brace before an answer that left it out.
pub fn complete_answer(answer: &str) -> (whole: String)
    ensures
        whole@ == completed(answer@),
{
    if starts_with_char(answer, '{') {
        answer.to_string()
    } else {
        "{".to_string().concat(answer)
    }
}

/// What a model's answer holds.
pub fn read_answer(answer: &str) -> (reading: InsightReading)
    ensures
        reading@ == reading_of(parsed_document(completed(answer@))),
{
    let whole: String = complete_answer(answer);
    digest_document(&Json::parse(whole.as_str()))
}

/// A completed answer starts with a brace, ends with the answer, and needs no completion.
pub proof fn completed_answers_start_with_a_brace(answer: Seq<char>)
    ensures
        completed(answer).len() > 0,
        completed(answer)[0] == '{',
        answer.is_suffix_of(completed(answer)),
        completed(completed(answer)) == completed(answer),
{
    reveal_strlit("{");
}

/// Nothing is made up: every insight is the reading of an item, and there are no more insights
/// than items. Where every item reads as an insight, none is skipped.
pub proof fn insights_come_from_items(items: Seq<JsonView>)
    ensures
        insights_among(items).len() <= items.len(),
        forall|k: int|
            0 <= k < insights_among(items).len() ==> exists|j: int|
                0 <= j < items.len() && insight_of(#[trigger] items[j]) == Some(
                    #[trigger] insights_among(items)[k],
                ),
        (forall|j: int| 0 <= j < items.len() ==> insight_of(#[trigger] items[j]) is Some)
            ==> insights_among(items) == items.map_values(
            |item: JsonView| insight_of(item).unwrap(),
        ),
    decreases items.len(),
{
    if items.len() > 0 {
        let shorter = items.drop_last();
        insights_come_from_items(shorter);
        assert forall|k: int| 0 <= k < insights_among(items).len() implies exists|j: int|
            0 <= j < items.len() && insight_of(#[trigger] items[j]) == Some(
                #[trigger] insights_among(items)[k],
            ) by {
            if k < insights_among(shorter).len() {
                let j = choose|j: int|
                    0 <= j < shorter.len() && insight_of(#[trigger] shorter[j]) == Some(
                        insights_among(shorter)[k],
                    );
                assert(items[j] == shorter[j]);
            } else {
                assert(insight_of(items[items.len() - 1]) == Some(insights_among(items)[k]));
            }
        }
        if forall|j: int| 0 <= j < items.len() ==> insight_of(#[trigger] items[j]) is Some {
            assert forall|j: int| 0 <= j < shorter.len() implies insight_of(
                #[trigger] shorter[j],
            ) is Some by {
                assert(shorter[j] == items[j]);
            }
            assert(insight_of(items[items.len() - 1]) is Some);
            assert(items.map_values(|item: JsonView| insight_of(item).unwrap())
                == shorter.map_values(|item: JsonView| insight_of(item).unwrap()).push(
                insight_of(items.last()).unwrap(),
            ));
        }
    } else {
        assert(insights_among(items) == items.map_values(
            |item: JsonView| insight_of(item).unwrap(),
        ));
    }
}

/// Whether the item says what the insight does: its content as a text, and its importance as a
/// number.
pub open spec fn says(item: JsonView, insight: InsightView) -> bool {
    &&& item.get("content"@) == Some(JsonView::Text(insight.content))
    &&& item.get("importance"@) == Some(JsonView::Number(Some(insight.importance)))
}

/// An item reads as an insight exactly where its content is a text and its importance a number,
/// of whatever length and size, and the insight is that text and that number.
pub proof fn items_read_as_what_they_say(item: JsonView, content: Seq<char>, importance: u64)
    ensures
        insight_of(item) == Some(InsightView { content, importance }) <==> {
            &&& item.get("content"@) == Some(JsonView::Text(content))
            &&& item.get("importance"@) == Some(JsonView::Number(Some(importance)))
        },
{
}

/// An object whose first member of either name holds a text as its content and a number as its
/// importance reads as an insight, wherever the members stand and whatever others there are.
pub proof fn objects_read_as_insights(
    members: Seq<(Seq<char>, JsonView)>,
    i: int,
    j: int,
    content: Seq<char>,
    importance: u64,
)
    requires
        0 <= i < members.len(),
        0 <= j < members.len(),
        members[i] == ("content"@, JsonView::Text(content)),
        members[j] == ("importance"@, JsonView::Number(Some(importance))),
        forall|k: int| 0 <= k < i ==> (#[trigger] members[k]).0 != "content"@,
        forall|k: int| 0 <= k < j ==> (#[trigger] members[k]).0 != "importance"@,
    ensures
        insight_of(JsonView::Object(members)) == Some(InsightView { content, importance }),
{
    members_are_found_by_their_keys(members, "content"@);
    members_are_found_by_their_keys(members, "importance"@);
}

/// Whether the insights are what the items at the places of `source` say, in order, and no other
/// item says one.
pub open spec fn drawn_from(
    items: Seq<JsonView>,
    insights: Seq<InsightView>,
    source: Seq<int>,
) -> bool {
    &&& source.len() == insights.len()
    &&& forall|k: int|
        0 <= k < source.len() ==> 0 <= #[trigger] source[k] < items.len() && says(
            items[source[k]],
            insights[k],
        )
    &&& forall|k: int, l: int|
        0 <= k < l < source.len() ==> #[trigger] source[k] < #[trigger] source[l]
    &&& forall|j: int, insight: InsightView|
        0 <= j < items.len() && !source.contains(j) ==> !#[trigger] says(items[j], insight)
}

/// The insights are exactly what the items say that say one, in order and each once: no item is
/// skipped but one without a text as its content or without a number as its importance.
pub proof fn only_malformed_items_are_skipped(items: Seq<JsonView>) -> (source: Seq<int>)
    ensures
        drawn_from(items, insights_among(items), source),
    decreases items.len(),
{
    if items.len() == 0 {
        Seq::empty()
    } else {
        let shorter = items.drop_last();
        let last = items.len() - 1;
        let before = only_malformed_items_are_skipped(shorter);
        let insights = insights_among(items);
        assert forall|j: int, insight: InsightView|
            0 <= j < last && #[trigger] says(items[j], insight) implies before.contains(j) by {
            assert(says(shorter[j], insight));
        }
        assert forall|k: int| 0 <= k < before.len() implies 0 <= #[trigger] before[k] < last
            && says(items[before[k]], insights[k]) by {
            assert(items[before[k]] == shorter[before[k]]);
        }
        match insight_of(items.last()) {
            Some(insight) => {
                let source = before.push(last);
                assert(source[before.len() as int] == last);
                assert forall|j: int| before.contains(j) implies source.contains(j) by {
                    let k = choose|k: int| 0 <= k < before.len() && before[k] == j;
                    assert(source[k] == j);
                }
                assert(source.contains(last));
                source
            },
            None => {
                assert forall|insight: InsightView| !#[trigger] says(items[last], insight) by {
                    items_read_as_what_they_say(
                        items[last],
                        insight.content,
                        insight.importance,
                    );
                }
                before
            },
        }
    }
}

/// Reading two lists one after the other gives the insights of the first and then those of the
/// second.
pub proof fn lists_are_read_one_after_the_other(first: Seq<JsonView>, second: Seq<JsonView>)
    ensures
        insights_among(first + second) == insights_among(first) + insights_among(second),
    decreases second.len(),
{
    if second.len() == 0 {
        assert(first + second == first);
    } else {
        assert((first + second).drop_last() == first + second.drop_last());
        assert((first + second).last() == second.last());
        lists_are_read_one_after_the_other(first, second.drop_last());
    }
}

/// A document holds insights exactly where its member `insights` is a list, of whatever length.
pub proof fn documents_hold_a_list_of_insights(document: JsonView, items: Seq<JsonView>)
    ensures
        reading_of(None) is NotJson,
        document.get("insights"@) == Some(JsonView::List(items)) ==> reading_of(Some(document))
            == InsightReadingView::Insights(insights_among(items)),
        reading_of(Some(document)) is Insights <==> (document.get("insights"@) matches Some(list)
            && list is List),
        !(reading_of(Some(document)) is Insights) ==> reading_of(Some(document)) is NoList,
{
}

/// An answer is completed by one brace where it does not start with one, and is otherwise left as
/// it is.
pub proof fn only_a_missing_brace_is_put_back(answer: Seq<char>)
    ensures
        answer.len() > 0 && answer[0] == '{' ==> completed(answer) == answer,
        answer.len() == 0 || answer[0] != '{' ==> completed(answer) == seq!['{'] + answer,
{
    reveal_strlit("{");
    assert("{"@ == seq!['{']);
}

/// A reading shows all of its insights, each with its content and its importance.
pub proof fn readings_show_every_insight(reading: InsightReading, insights: Seq<InsightView>)
    requires
        reading@ == InsightReadingView::Insights(insights),
    ensures
        reading matches InsightReading::Insights(held) && held@.len() == insights.len() && forall|
            k: int,
        |
            0 <= k < insights.len() ==> {
                &&& (#[trigger] held@[k]).content@ == insights[k].content
                &&& held@[k].importance == insights[k].importance
            },
{
}

} // verus!
