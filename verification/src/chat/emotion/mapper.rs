//! How emotion labels become signals and changes of a companion's emotional state.
//!
//! Changes are given in thousandths; applying them to the floating-point state happens
//! outside.
use vstd::prelude::*;

use crate::text::{contains_string, lower_seq, push_str, str_eq, str_set, trim};

verus! {

/// A label as matched: trimmed, in lower case, spaces turned into underscores.
pub open spec fn normalized_label(label: Seq<char>) -> Seq<char> {
    lower_seq(trim(label)).map_values(|c: char| if c == ' ' { '_' } else { c })
}

pub fn normalize_label(label: &str) -> (r: String)
    ensures
        r@ == normalized_label(label@),
{
    let lowered = crate::text::to_ascii_lowercase(crate::text::trimmed(label).as_str());
    let v = crate::text::chars_of(lowered.as_str());
    let mut out = String::new();
    let mut i: usize = 0;
    while i < v.len()
        invariant
            i <= v.len(),
            v@ == lower_seq(trim(label@)),
            out@ == v@.take(i as int).map_values(|c: char| if c == ' ' { '_' } else { c }),
        decreases v.len() - i,
    {
        let c = if v[i] == ' ' { '_' } else { v[i] };
        crate::text::push_char(&mut out, c);
        i += 1;
        assert(out@ =~= v@.take(i as int).map_values(|c: char| if c == ' ' { '_' } else { c }));
    }
    assert(v@.take(v.len() as int) =~= v@);
    out
}

/// The score, in thousandths, a label needs to count: 650 for neutral, 250 for love, desire,
/// anger, fear, sadness and hurt, 300 for the rest.
pub open spec fn label_threshold_of(label: Seq<char>) -> u32 {
    let l = normalized_label(label);
    if l == "neutral"@ {
        650
    } else if l == "love"@ || l == "desire"@ || l == "anger"@ || l == "fear"@ || l == "sadness"@
        || l == "hurt"@ {
        250
    } else {
        300
    }
}

/// How strongly a label must score to count: 650 thousandths for neutral, 250 for love,
/// desire, anger, fear, sadness and hurt, and 300 for every other label (matched normalised).
pub proof fn law_label_thresholds(label: Seq<char>)
    ensures
        ({
            let l = normalized_label(label);
            &&& label_threshold_of(label) == 650 <==> l == "neutral"@
            &&& label_threshold_of(label) == 250 <==> (l == "love"@ || l == "desire"@ || l == "anger"@
                || l == "fear"@ || l == "sadness"@ || l == "hurt"@)
            &&& label_threshold_of(label) == 300 <==> !(l == "neutral"@ || l == "love"@ || l == "desire"@
                || l == "anger"@ || l == "fear"@ || l == "sadness"@ || l == "hurt"@)
        }),
{
    reveal_strlit("neutral");
    reveal_strlit("love");
    reveal_strlit("desire");
    reveal_strlit("anger");
    reveal_strlit("fear");
    reveal_strlit("sadness");
    reveal_strlit("hurt");
    assert("love"@.len() == 4 && "fear"@.len() == 4 && "hurt"@.len() == 4);
    assert("fear"@[0] != "love"@[0]);
    assert("hurt"@[0] != "love"@[0]);
    assert("hurt"@[0] != "fear"@[0]);
    assert("anger"@.len() == 5);
    assert("desire"@.len() == 6);
    assert("neutral"@.len() == 7 && "sadness"@.len() == 7);
    assert("sadness"@[0] != "neutral"@[0]);
}

pub fn label_threshold_permille(label: &str) -> (r: u32)
    ensures
        r == label_threshold_of(label@),
{
    let l = normalize_label(label);
    let s = l.as_str();
    if str_eq(s, "neutral") {
        650
    } else if str_eq(s, "love") || str_eq(s, "desire") || str_eq(s, "anger") || str_eq(s, "fear")
        || str_eq(s, "sadness") || str_eq(s, "hurt") {
        250
    } else {
        300
    }
}

/// The groups labels fall into; each gives one signal.
#[derive(Debug, Clone, Copy, PartialEq, Eq, Structural)]
pub enum EmotionCategory {
    Love,
    Caring,
    Appreciation,
    Positive,
    Desire,
    Relief,
    Remorse,
    Distress,
    Anxiety,
    Conflict,
    Embarrassment,
    Uncertainty,
    Engagement,
    Pride,
    Neutral,
}

/// The group of a normalised label; labels outside every group give nothing.
pub open spec fn category_of(l: Seq<char>) -> Option<EmotionCategory> {
    if l == "love"@ {
        Some(EmotionCategory::Love)
    } else if l == "caring"@ {
        Some(EmotionCategory::Caring)
    } else if l == "gratitude"@ || l == "admiration"@ || l == "approval"@ {
        Some(EmotionCategory::Appreciation)
    } else if l == "joy"@ || l == "amusement"@ || l == "excitement"@ || l == "optimism"@ {
        Some(EmotionCategory::Positive)
    } else if l == "desire"@ {
        Some(EmotionCategory::Desire)
    } else if l == "relief"@ {
        Some(EmotionCategory::Relief)
    } else if l == "remorse"@ {
        Some(EmotionCategory::Remorse)
    } else if l == "sadness"@ || l == "grief"@ || l == "disappointment"@ {
        Some(EmotionCategory::Distress)
    } else if l == "fear"@ || l == "nervousness"@ {
        Some(EmotionCategory::Anxiety)
    } else if l == "anger"@ || l == "annoyance"@ || l == "disapproval"@ || l == "disgust"@ || l
        == "contempt"@ || l == "frustration"@ {
        Some(EmotionCategory::Conflict)
    } else if l == "embarrassment"@ {
        Some(EmotionCategory::Embarrassment)
    } else if l == "confusion"@ {
        Some(EmotionCategory::Uncertainty)
    } else if l == "curiosity"@ || l == "realization"@ || l == "surprise"@ {
        Some(EmotionCategory::Engagement)
    } else if l == "pride"@ {
        Some(EmotionCategory::Pride)
    } else if l == "neutral"@ {
        Some(EmotionCategory::Neutral)
    } else {
        None
    }
}

/// The groups labels fall into, and nothing else: love; caring; gratitude, admiration and
/// approval (appreciation); joy, amusement, excitement and optimism (positive); desire; relief;
/// remorse; sadness, grief and disappointment (distress); fear and nervousness (anxiety);
/// anger, annoyance, disapproval, disgust, contempt and frustration (conflict); embarrassment;
/// confusion (uncertainty); curiosity, realization and surprise (engagement); pride; neutral.
/// Any other normalised label falls in no group.
pub proof fn law_label_groups(l: Seq<char>)
    ensures
        category_of(l) == Some(EmotionCategory::Love) <==> (l == "love"@),
        category_of(l) == Some(EmotionCategory::Caring) <==> (l == "caring"@),
        category_of(l) == Some(EmotionCategory::Appreciation) <==> (l == "gratitude"@ || l == "admiration"@ || l == "approval"@),
        category_of(l) == Some(EmotionCategory::Positive) <==> (l == "joy"@ || l == "amusement"@ || l == "excitement"@ || l == "optimism"@),
        category_of(l) == Some(EmotionCategory::Desire) <==> (l == "desire"@),
        category_of(l) == Some(EmotionCategory::Relief) <==> (l == "relief"@),
        category_of(l) == Some(EmotionCategory::Remorse) <==> (l == "remorse"@),
        category_of(l) == Some(EmotionCategory::Distress) <==> (l == "sadness"@ || l == "grief"@ || l == "disappointment"@),
        category_of(l) == Some(EmotionCategory::Anxiety) <==> (l == "fear"@ || l == "nervousness"@),
        category_of(l) == Some(EmotionCategory::Conflict) <==> (l == "anger"@ || l == "annoyance"@ || l == "disapproval"@ || l == "disgust"@ || l == "contempt"@ || l == "frustration"@),
        category_of(l) == Some(EmotionCategory::Embarrassment) <==> (l == "embarrassment"@),
        category_of(l) == Some(EmotionCategory::Uncertainty) <==> (l == "confusion"@),
        category_of(l) == Some(EmotionCategory::Engagement) <==> (l == "curiosity"@ || l == "realization"@ || l == "surprise"@),
        category_of(l) == Some(EmotionCategory::Pride) <==> (l == "pride"@),
        category_of(l) == Some(EmotionCategory::Neutral) <==> (l == "neutral"@),
        category_of(l) is None <==> !(l == "love"@ || l == "caring"@ || l == "gratitude"@ || l == "admiration"@ || l == "approval"@ || l == "joy"@ || l == "amusement"@ || l == "excitement"@ || l == "optimism"@ || l == "desire"@ || l == "relief"@ || l == "remorse"@ || l == "sadness"@ || l == "grief"@ || l == "disappointment"@ || l == "fear"@ || l == "nervousness"@ || l == "anger"@ || l == "annoyance"@ || l == "disapproval"@ || l == "disgust"@ || l == "contempt"@ || l == "frustration"@ || l == "embarrassment"@ || l == "confusion"@ || l == "curiosity"@ || l == "realization"@ || l == "surprise"@ || l == "pride"@ || l == "neutral"@),
{
    reveal_strlit("love");
    reveal_strlit("caring");
    reveal_strlit("gratitude");
    reveal_strlit("admiration");
    reveal_strlit("approval");
    reveal_strlit("joy");
    reveal_strlit("amusement");
    reveal_strlit("excitement");
    reveal_strlit("optimism");
    reveal_strlit("desire");
    reveal_strlit("relief");
    reveal_strlit("remorse");
    reveal_strlit("sadness");
    reveal_strlit("grief");
    reveal_strlit("disappointment");
    reveal_strlit("fear");
    reveal_strlit("nervousness");
    reveal_strlit("anger");
    reveal_strlit("annoyance");
    reveal_strlit("disapproval");
    reveal_strlit("disgust");
    reveal_strlit("contempt");
    reveal_strlit("frustration");
    reveal_strlit("embarrassment");
    reveal_strlit("confusion");
    reveal_strlit("curiosity");
    reveal_strlit("realization");
    reveal_strlit("surprise");
    reveal_strlit("pride");
    reveal_strlit("neutral");
    assert("joy"@.len() == 3);
    assert("love"@.len() == 4 && "fear"@.len() == 4);
    assert("fear"@[0] != "love"@[0]);
    assert("grief"@.len() == 5 && "anger"@.len() == 5 && "pride"@.len() == 5);
    assert("anger"@[0] != "grief"@[0]);
    assert("pride"@[0] != "grief"@[0]);
    assert("pride"@[0] != "anger"@[0]);
    assert("caring"@.len() == 6 && "desire"@.len() == 6 && "relief"@.len() == 6);
    assert("desire"@[0] != "caring"@[0]);
    assert("relief"@[0] != "caring"@[0]);
    assert("relief"@[0] != "desire"@[0]);
    assert("remorse"@.len() == 7 && "sadness"@.len() == 7 && "disgust"@.len() == 7 && "neutral"@.len() == 7);
    assert("sadness"@[0] != "remorse"@[0]);
    assert("disgust"@[0] != "remorse"@[0]);
    assert("disgust"@[0] != "sadness"@[0]);
    assert("neutral"@[0] != "remorse"@[0]);
    assert("neutral"@[0] != "sadness"@[0]);
    assert("neutral"@[0] != "disgust"@[0]);
    assert("approval"@.len() == 8 && "optimism"@.len() == 8 && "contempt"@.len() == 8 && "surprise"@.len() == 8);
    assert("optimism"@[0] != "approval"@[0]);
    assert("contempt"@[0] != "approval"@[0]);
    assert("contempt"@[0] != "optimism"@[0]);
    assert("surprise"@[0] != "approval"@[0]);
    assert("surprise"@[0] != "optimism"@[0]);
    assert("surprise"@[0] != "contempt"@[0]);
    assert("gratitude"@.len() == 9 && "amusement"@.len() == 9 && "annoyance"@.len() == 9 && "confusion"@.len() == 9 && "curiosity"@.len() == 9);
    assert("amusement"@[0] != "gratitude"@[0]);
    assert("annoyance"@[0] != "gratitude"@[0]);
    assert("annoyance"@[1] != "amusement"@[1]);
    assert("confusion"@[0] != "gratitude"@[0]);
    assert("confusion"@[0] != "amusement"@[0]);
    assert("confusion"@[0] != "annoyance"@[0]);
    assert("curiosity"@[0] != "gratitude"@[0]);
    assert("curiosity"@[0] != "amusement"@[0]);
    assert("curiosity"@[0] != "annoyance"@[0]);
    assert("curiosity"@[1] != "confusion"@[1]);
    assert("admiration"@.len() == 10 && "excitement"@.len() == 10);
    assert("excitement"@[0] != "admiration"@[0]);
    assert("nervousness"@.len() == 11 && "disapproval"@.len() == 11 && "frustration"@.len() == 11 && "realization"@.len() == 11);
    assert("disapproval"@[0] != "nervousness"@[0]);
    assert("frustration"@[0] != "nervousness"@[0]);
    assert("frustration"@[0] != "disapproval"@[0]);
    assert("realization"@[0] != "nervousness"@[0]);
    assert("realization"@[0] != "disapproval"@[0]);
    assert("realization"@[0] != "frustration"@[0]);
    assert("embarrassment"@.len() == 13);
    assert("disappointment"@.len() == 14);
}

pub fn label_category(label: &str) -> (r: Option<EmotionCategory>)
    ensures
        r == category_of(normalized_label(label@)),
{
    let n = normalize_label(label);
    let l = n.as_str();
    if str_eq(l, "love") {
        Some(EmotionCategory::Love)
    } else if str_eq(l, "caring") {
        Some(EmotionCategory::Caring)
    } else if str_eq(l, "gratitude") || str_eq(l, "admiration") || str_eq(l, "approval") {
        Some(EmotionCategory::Appreciation)
    } else if str_eq(l, "joy") || str_eq(l, "amusement") || str_eq(l, "excitement") || str_eq(
        l,
        "optimism",
    ) {
        Some(EmotionCategory::Positive)
    } else if str_eq(l, "desire") {
        Some(EmotionCategory::Desire)
    } else if str_eq(l, "relief") {
        Some(EmotionCategory::Relief)
    } else if str_eq(l, "remorse") {
        Some(EmotionCategory::Remorse)
    } else if str_eq(l, "sadness") || str_eq(l, "grief") || str_eq(l, "disappointment") {
        Some(EmotionCategory::Distress)
    } else if str_eq(l, "fear") || str_eq(l, "nervousness") {
        Some(EmotionCategory::Anxiety)
    } else if str_eq(l, "anger") || str_eq(l, "annoyance") || str_eq(l, "disapproval") || str_eq(
        l,
        "disgust",
    ) || str_eq(l, "contempt") || str_eq(l, "frustration") {
        Some(EmotionCategory::Conflict)
    } else if str_eq(l, "embarrassment") {
        Some(EmotionCategory::Embarrassment)
    } else if str_eq(l, "confusion") {
        Some(EmotionCategory::Uncertainty)
    } else if str_eq(l, "curiosity") || str_eq(l, "realization") || str_eq(l, "surprise") {
        Some(EmotionCategory::Engagement)
    } else if str_eq(l, "pride") {
        Some(EmotionCategory::Pride)
    } else if str_eq(l, "neutral") {
        Some(EmotionCategory::Neutral)
    } else {
        None
    }
}

/// The signal a group gives.
pub open spec fn signal_of(c: EmotionCategory) -> Seq<char> {
    match c {
        EmotionCategory::Love => "emotion:love"@,
        EmotionCategory::Caring => "emotion:caring"@,
        EmotionCategory::Appreciation => "emotion:appreciation"@,
        EmotionCategory::Positive => "emotion:positive"@,
        EmotionCategory::Desire => "emotion:desire"@,
        EmotionCategory::Relief => "emotion:relief"@,
        EmotionCategory::Remorse => "emotion:remorse"@,
        EmotionCategory::Distress => "emotion:distress"@,
        EmotionCategory::Anxiety => "emotion:anxiety"@,
        EmotionCategory::Conflict => "emotion:conflict"@,
        EmotionCategory::Embarrassment => "emotion:embarrassment"@,
        EmotionCategory::Uncertainty => "emotion:uncertainty"@,
        EmotionCategory::Engagement => "emotion:engagement"@,
        EmotionCategory::Pride => "emotion:pride"@,
        EmotionCategory::Neutral => "emotion:neutral"@,
    }
}

/// Each group gives a signal of its own: different groups never share a signal.
pub proof fn law_group_signals_distinct(c1: EmotionCategory, c2: EmotionCategory)
    ensures
        c1 != c2 ==> signal_of(c1) != signal_of(c2),
{
    reveal_strlit("emotion:love");
    reveal_strlit("emotion:caring");
    reveal_strlit("emotion:appreciation");
    reveal_strlit("emotion:positive");
    reveal_strlit("emotion:desire");
    reveal_strlit("emotion:relief");
    reveal_strlit("emotion:remorse");
    reveal_strlit("emotion:distress");
    reveal_strlit("emotion:anxiety");
    reveal_strlit("emotion:conflict");
    reveal_strlit("emotion:embarrassment");
    reveal_strlit("emotion:uncertainty");
    reveal_strlit("emotion:engagement");
    reveal_strlit("emotion:pride");
    reveal_strlit("emotion:neutral");
    assert("emotion:love"@.len() == 12);
    assert("emotion:pride"@.len() == 13);
    assert("emotion:caring"@.len() == 14 && "emotion:desire"@.len() == 14 && "emotion:relief"@.len() == 14);
    assert("emotion:desire"@[8] != "emotion:caring"@[8]);
    assert("emotion:relief"@[8] != "emotion:caring"@[8]);
    assert("emotion:relief"@[8] != "emotion:desire"@[8]);
    assert("emotion:remorse"@.len() == 15 && "emotion:anxiety"@.len() == 15 && "emotion:neutral"@.len() == 15);
    assert("emotion:anxiety"@[8] != "emotion:remorse"@[8]);
    assert("emotion:neutral"@[8] != "emotion:remorse"@[8]);
    assert("emotion:neutral"@[8] != "emotion:anxiety"@[8]);
    assert("emotion:positive"@.len() == 16 && "emotion:distress"@.len() == 16 && "emotion:conflict"@.len() == 16);
    assert("emotion:distress"@[8] != "emotion:positive"@[8]);
    assert("emotion:conflict"@[8] != "emotion:positive"@[8]);
    assert("emotion:conflict"@[8] != "emotion:distress"@[8]);
    assert("emotion:engagement"@.len() == 18);
    assert("emotion:uncertainty"@.len() == 19);
    assert("emotion:appreciation"@.len() == 20);
    assert("emotion:embarrassment"@.len() == 21);
}

pub fn category_signal(c: EmotionCategory) -> (r: &'static str)
    ensures
        r@ == signal_of(c),
{
    match c {
        EmotionCategory::Love => "emotion:love",
        EmotionCategory::Caring => "emotion:caring",
        EmotionCategory::Appreciation => "emotion:appreciation",
        EmotionCategory::Positive => "emotion:positive",
        EmotionCategory::Desire => "emotion:desire",
        EmotionCategory::Relief => "emotion:relief",
        EmotionCategory::Remorse => "emotion:remorse",
        EmotionCategory::Distress => "emotion:distress",
        EmotionCategory::Anxiety => "emotion:anxiety",
        EmotionCategory::Conflict => "emotion:conflict",
        EmotionCategory::Embarrassment => "emotion:embarrassment",
        EmotionCategory::Uncertainty => "emotion:uncertainty",
        EmotionCategory::Engagement => "emotion:engagement",
        EmotionCategory::Pride => "emotion:pride",
        EmotionCategory::Neutral => "emotion:neutral",
    }
}

/// Adds a signal unless it is already listed.
pub fn push_signal(signals: &mut Vec<String>, signal: &str)
    ensures
        crate::text::distinct_strings(old(signals)@) ==> crate::text::distinct_strings(
            final(signals)@,
        ),
        if str_set(old(signals)@).contains(signal@) {
            final(signals)@ == old(signals)@
        } else {
            final(signals)@.len() == old(signals)@.len() + 1 && final(signals)@.drop_last()
                == old(signals)@ && final(signals)@.last()@ == signal@
        },
{
    if !contains_string(signals, signal) {
        let mut s = String::new();
        push_str(&mut s, signal);
        let ghost prev = signals@;
        signals.push(s);
        assert(signals@.drop_last() =~= old(signals)@);
        proof {
            if crate::text::distinct_strings(prev) {
                assert forall|i: int, j: int| 0 <= i < j < signals@.len() implies (
                #[trigger] signals@[i])@ != (#[trigger] signals@[j])@ by {
                    if j == prev.len() {
                        assert(signals@[i] == prev[i]);
                        assert(str_set(prev).contains(prev[i]@));
                    } else {
                        assert(signals@[i] == prev[i] && signals@[j] == prev[j]);
                    }
                }
            }
        }
    }
}

/// A group's change of the emotional state and of the relationship, in thousandths of the
/// label's score.
#[derive(Debug, Clone, Copy, PartialEq, Eq, Structural)]
pub struct EmotionEffect {
    pub warmth: i32,
    pub trust: i32,
    pub calm: i32,
    pub vulnerability: i32,
    pub longing: i32,
    pub hurt: i32,
    pub tension: i32,
    pub irritation: i32,
    pub affection_intensity: i32,
    pub reassurance_need: i32,
    pub closeness: i32,
    pub relationship_trust: i32,
    pub affection: i32,
    pub relationship_tension: i32,
    pub stability: i32,
}

pub open spec fn no_effect() -> EmotionEffect {
    EmotionEffect {
        warmth: 0,
        trust: 0,
        calm: 0,
        vulnerability: 0,
        longing: 0,
        hurt: 0,
        tension: 0,
        irritation: 0,
        affection_intensity: 0,
        reassurance_need: 0,
        closeness: 0,
        relationship_trust: 0,
        affection: 0,
        relationship_tension: 0,
        stability: 0,
    }
}

/// What each group does to the state and the relationship.
pub open spec fn effect_of(c: EmotionCategory) -> EmotionEffect {
    let z = no_effect();
    match c {
        EmotionCategory::Love => EmotionEffect {
            warmth: 100,
            affection_intensity: 150,
            longing: 60,
            trust: 40,
            closeness: 35,
            affection: 55,
            ..z
        },
        EmotionCategory::Caring => EmotionEffect {
            warmth: 110,
            trust: 50,
            calm: 40,
            closeness: 25,
            relationship_trust: 25,
            ..z
        },
        EmotionCategory::Appreciation => EmotionEffect {
            warmth: 80,
            trust: 70,
            calm: 35,
            relationship_trust: 30,
            stability: 25,
            ..z
        },
        EmotionCategory::Positive => EmotionEffect {
            warmth: 70,
            calm: 35,
            affection_intensity: 40,
            closeness: 18,
            stability: 15,
            ..z
        },
        EmotionCategory::Desire => EmotionEffect {
            longing: 120,
            affection_intensity: 80,
            vulnerability: 35,
            closeness: 25,
            affection: 30,
            ..z
        },
        EmotionCategory::Relief => EmotionEffect {
            calm: 80,
            trust: 40,
            tension: -50i32,
            hurt: -35i32,
            stability: 30,
            relationship_tension: -25i32,
            ..z
        },
        EmotionCategory::Remorse => EmotionEffect {
            warmth: 40,
            trust: 35,
            hurt: -60i32,
            tension: -50i32,
            relationship_trust: 25,
            relationship_tension: -25i32,
            stability: 20,
            ..z
        },
        EmotionCategory::Distress => EmotionEffect {
            warmth: 35,
            vulnerability: 100,
            reassurance_need: 90,
            hurt: 45,
            calm: -35i32,
            closeness: 12,
            ..z
        },
        EmotionCategory::Anxiety => EmotionEffect {
            vulnerability: 90,
            reassurance_need: 100,
            tension: 40,
            calm: -60i32,
            stability: -15i32,
            ..z
        },
        EmotionCategory::Conflict => EmotionEffect {
            hurt: 80,
            irritation: 100,
            tension: 120,
            calm: -80i32,
            warmth: -60i32,
            trust: -45i32,
            relationship_tension: 70,
            relationship_trust: -45i32,
            affection: -60i32,
            closeness: -30i32,
            stability: -35i32,
            ..z
        },
        EmotionCategory::Embarrassment => EmotionEffect {
            vulnerability: 70,
            reassurance_need: 45,
            tension: 20,
            warmth: 20,
            ..z
        },
        EmotionCategory::Uncertainty => EmotionEffect {
            tension: 25,
            reassurance_need: 35,
            calm: -25i32,
            ..z
        },
        EmotionCategory::Engagement => EmotionEffect {
            warmth: 25,
            vulnerability: 20,
            closeness: 10,
            ..z
        },
        EmotionCategory::Pride => EmotionEffect { calm: 35, warmth: 25, stability: 15, ..z },
        EmotionCategory::Neutral => EmotionEffect { stability: 10, ..z },
    }
}

fn zero_effect() -> (r: EmotionEffect)
    ensures
        r == no_effect(),
{
    EmotionEffect {
        warmth: 0,
        trust: 0,
        calm: 0,
        vulnerability: 0,
        longing: 0,
        hurt: 0,
        tension: 0,
        irritation: 0,
        affection_intensity: 0,
        reassurance_need: 0,
        closeness: 0,
        relationship_trust: 0,
        affection: 0,
        relationship_tension: 0,
        stability: 0,
    }
}

pub fn category_effect(c: EmotionCategory) -> (r: EmotionEffect)
    ensures
        r == effect_of(c),
{
    let z = zero_effect();
    match c {
        EmotionCategory::Love => EmotionEffect {
            warmth: 100,
            affection_intensity: 150,
            longing: 60,
            trust: 40,
            closeness: 35,
            affection: 55,
            ..z
        },
        EmotionCategory::Caring => EmotionEffect {
            warmth: 110,
            trust: 50,
            calm: 40,
            closeness: 25,
            relationship_trust: 25,
            ..z
        },
        EmotionCategory::Appreciation => EmotionEffect {
            warmth: 80,
            trust: 70,
            calm: 35,
            relationship_trust: 30,
            stability: 25,
            ..z
        },
        EmotionCategory::Positive => EmotionEffect {
            warmth: 70,
            calm: 35,
            affection_intensity: 40,
            closeness: 18,
            stability: 15,
            ..z
        },
        EmotionCategory::Desire => EmotionEffect {
            longing: 120,
            affection_intensity: 80,
            vulnerability: 35,
            closeness: 25,
            affection: 30,
            ..z
        },
        EmotionCategory::Relief => EmotionEffect {
            calm: 80,
            trust: 40,
            tension: -50i32,
            hurt: -35i32,
            stability: 30,
            relationship_tension: -25i32,
            ..z
        },
        EmotionCategory::Remorse => EmotionEffect {
            warmth: 40,
            trust: 35,
            hurt: -60i32,
            tension: -50i32,
            relationship_trust: 25,
            relationship_tension: -25i32,
            stability: 20,
            ..z
        },
        EmotionCategory::Distress => EmotionEffect {
            warmth: 35,
            vulnerability: 100,
            reassurance_need: 90,
            hurt: 45,
            calm: -35i32,
            closeness: 12,
            ..z
        },
        EmotionCategory::Anxiety => EmotionEffect {
            vulnerability: 90,
            reassurance_need: 100,
            tension: 40,
            calm: -60i32,
            stability: -15i32,
            ..z
        },
        EmotionCategory::Conflict => EmotionEffect {
            hurt: 80,
            irritation: 100,
            tension: 120,
            calm: -80i32,
            warmth: -60i32,
            trust: -45i32,
            relationship_tension: 70,
            relationship_trust: -45i32,
            affection: -60i32,
            closeness: -30i32,
            stability: -35i32,
            ..z
        },
        EmotionCategory::Embarrassment => EmotionEffect {
            vulnerability: 70,
            reassurance_need: 45,
            tension: 20,
            warmth: 20,
            ..z
        },
        EmotionCategory::Uncertainty => EmotionEffect {
            tension: 25,
            reassurance_need: 35,
            calm: -25i32,
            ..z
        },
        EmotionCategory::Engagement => EmotionEffect {
            warmth: 25,
            vulnerability: 20,
            closeness: 10,
            ..z
        },
        EmotionCategory::Pride => EmotionEffect { calm: 35, warmth: 25, stability: 15, ..z },
        EmotionCategory::Neutral => EmotionEffect { stability: 10, ..z },
    }
}

/// What a label contributes when it counts: its group's signal and effect.
pub fn apply_emotion_label(label: &str, signals: &mut Vec<String>) -> (r: Option<EmotionEffect>)
    ensures
        match category_of(normalized_label(label@)) {
            Some(c) => r == Some(effect_of(c)) && (if str_set(old(signals)@).contains(signal_of(c)) {
                final(signals)@ == old(signals)@
            } else {
                final(signals)@.drop_last() == old(signals)@ && final(signals)@.last()@ == signal_of(c)
                    && final(signals)@.len() == old(signals)@.len() + 1
            }),
            None => r is None && final(signals)@ == old(signals)@,
        },
        crate::text::distinct_strings(old(signals)@) ==> crate::text::distinct_strings(
            final(signals)@,
        ),
{
    match label_category(label) {
        Some(c) => {
            push_signal(signals, category_signal(c));
            Some(category_effect(c))
        },
        None => None,
    }
}

/// Every group moves something, and conflict is the only group that lowers the relationship's
/// affection.
pub proof fn law_only_conflict_lowers_affection(c: EmotionCategory)
    ensures
        effect_of(c) != no_effect(),
        effect_of(c).affection < 0 <==> c == EmotionCategory::Conflict,
{
}

} // verus!
