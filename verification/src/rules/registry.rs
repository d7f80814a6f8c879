//! The catalog of rules.
//!
//! The catalog is fixed: every rule has a code made of the prefix of its
//! category and a number, a category, a name and two descriptions. Nothing
//! here can change it.

use vstd::prelude::*;
use crate::text::str_eq;

verus! {

/// The category of a rule.
#[derive(Debug, Clone, Copy, PartialEq, Eq, Structural)]
pub enum RuleCategory {
    Documentation,
    Testing,
    Metadata,
    Convention,
}

/// The identity of a rule.
#[allow(non_camel_case_types)]
#[derive(Debug, Clone, Copy, PartialEq, Eq, Hash, Structural)]
pub enum RuleId {
    DOC001,
    TEST001,
    TEST002,
    TEST003,
}

/// The descriptor of a rule.
#[derive(Debug, Clone, Copy)]
pub struct RuleInfo {
    pub id: RuleId,
    pub category: RuleCategory,
    pub name: &'static str,
    pub short_description: &'static str,
    pub long_description: &'static str,
}

/// The descriptor of a rule, as mathematical values.
pub struct RuleInfoView {
    pub id: RuleId,
    pub category: RuleCategory,
    pub name: Seq<char>,
    pub short_description: Seq<char>,
    pub long_description: Seq<char>,
}

impl View for RuleInfo {
    type V = RuleInfoView;

    open spec fn view(&self) -> RuleInfoView {
        RuleInfoView {
            id: self.id,
            category: self.category,
            name: self.name@,
            short_description: self.short_description@,
            long_description: self.long_description@,
        }
    }
}

/// The catalog of rules.
pub struct RuleRegistry;

impl RuleCategory {
    /// The prefix that the codes of the rules of a category start with.
    pub open spec fn prefix_text(self) -> Seq<char> {
        match self {
            RuleCategory::Documentation => "DOC"@,
            RuleCategory::Testing => "TEST"@,
            RuleCategory::Metadata => "META"@,
            RuleCategory::Convention => "CONV"@,
        }
    }

    /// The prefix that the codes of the rules of the category start with.
    pub fn prefix(&self) -> (prefix: &'static str)
        ensures
            prefix@ == self.prefix_text(),
    {
        match self {
            RuleCategory::Documentation => "DOC",
            RuleCategory::Testing => "TEST",
            RuleCategory::Metadata => "META",
            RuleCategory::Convention => "CONV",
        }
    }
}

impl RuleId {
    /// The code of a rule.
    pub open spec fn code(self) -> Seq<char> {
        match self {
            RuleId::DOC001 => "DOC001"@,
            RuleId::TEST001 => "TEST001"@,
            RuleId::TEST002 => "TEST002"@,
            RuleId::TEST003 => "TEST003"@,
        }
    }

    /// The rule that a code stands for.
    pub open spec fn coded(s: Seq<char>) -> Option<RuleId> {
        if s == "DOC001"@ {
            Some(RuleId::DOC001)
        } else if s == "TEST001"@ {
            Some(RuleId::TEST001)
        } else if s == "TEST002"@ {
            Some(RuleId::TEST002)
        } else if s == "TEST003"@ {
            Some(RuleId::TEST003)
        } else {
            None
        }
    }

    /// The category of a rule.
    pub open spec fn category(self) -> RuleCategory {
        match self {
            RuleId::DOC001 => RuleCategory::Documentation,
            RuleId::TEST001 => RuleCategory::Testing,
            RuleId::TEST002 => RuleCategory::Testing,
            RuleId::TEST003 => RuleCategory::Testing,
        }
    }

    /// Every rule, in the order of the catalog.
    pub open spec fn every() -> Seq<RuleId> {
        seq![RuleId::DOC001, RuleId::TEST001, RuleId::TEST002, RuleId::TEST003]
    }

    /// The code of the rule.
    pub fn as_str(&self) -> (code: &'static str)
        ensures
            code@ == self.code(),
    {
        match self {
            RuleId::DOC001 => "DOC001",
            RuleId::TEST001 => "TEST001",
            RuleId::TEST002 => "TEST002",
            RuleId::TEST003 => "TEST003",
        }
    }

    /// The rule that `s` is the code of. Codes are matched exactly.
    pub fn from_str(s: &str) -> (rule: Option<RuleId>)
        ensures
            rule == RuleId::coded(s@),
    {
        if str_eq(s, "DOC001") {
            Some(RuleId::DOC001)
        } else if str_eq(s, "TEST001") {
            Some(RuleId::TEST001)
        } else if str_eq(s, "TEST002") {
            Some(RuleId::TEST002)
        } else if str_eq(s, "TEST003") {
            Some(RuleId::TEST003)
        } else {
            None
        }
    }

    /// Every rule, in the order of the catalog.
    pub fn all() -> (rules: Vec<RuleId>)
        ensures
            rules@ == RuleId::every(),
    {
        let mut rules: Vec<RuleId> = Vec::new();
        rules.push(RuleId::DOC001);
        rules.push(RuleId::TEST001);
        rules.push(RuleId::TEST002);
        rules.push(RuleId::TEST003);
        assert(rules@ =~= RuleId::every());
        rules
    }
}

/// The descriptor that the catalog holds for a rule.
pub open spec fn rule_info(id: RuleId) -> RuleInfoView {
    match id {
        RuleId::DOC001 => RuleInfoView {
            id,
            category: RuleCategory::Documentation,
            name: "description"@,
            short_description: "Resources must have description"@,
            long_description: "A description must be present and must not be blank."@,
        },
        RuleId::TEST001 => RuleInfoView {
            id,
            category: RuleCategory::Testing,
            name: "tests"@,
            short_description: "Models must have tests (either column or model-level"@,
            long_description: "A test must be attached to the resource or to one of its columns."@,
        },
        RuleId::TEST002 => RuleInfoView {
            id,
            category: RuleCategory::Testing,
            name: "model-tests"@,
            short_description: "Models must have model-level tests"@,
            long_description: "A test must be attached to the resource itself."@,
        },
        RuleId::TEST003 => RuleInfoView {
            id,
            category: RuleCategory::Testing,
            name: "column-tests"@,
            short_description: "Specific columns must have tests"@,
            long_description: "Every declared column must have a test attached to it."@,
        },
    }
}

/// What the descriptors of a list hold.
pub open spec fn info_views(infos: Seq<&RuleInfo>) -> Seq<RuleInfoView> {
    infos.map_values(|info: &RuleInfo| info@)
}

/// The descriptors of the whole catalog, in its order.
pub open spec fn catalog() -> Seq<RuleInfoView> {
    RuleId::every().map_values(|id: RuleId| rule_info(id))
}

impl RuleRegistry {
    /// The descriptor of the documentation rule.
    pub fn description_rule() -> (info: &'static RuleInfo)
        ensures
            info@ == rule_info(RuleId::DOC001),
    {
        &RuleInfo {
            id: RuleId::DOC001,
            category: RuleCategory::Documentation,
            name: "description",
            short_description: "Resources must have description",
            long_description: "A description must be present and must not be blank.",
        }
    }

    /// The descriptor of the rule that asks for any test.
    pub fn tests_rule() -> (info: &'static RuleInfo)
        ensures
            info@ == rule_info(RuleId::TEST001),
    {
        &RuleInfo {
            id: RuleId::TEST001,
            category: RuleCategory::Testing,
            name: "tests",
            short_description: "Models must have tests (either column or model-level",
            long_description: "A test must be attached to the resource or to one of its columns.",
        }
    }

    /// The descriptor of the rule that asks for a test on the resource itself.
    pub fn model_tests_rule() -> (info: &'static RuleInfo)
        ensures
            info@ == rule_info(RuleId::TEST002),
    {
        &RuleInfo {
            id: RuleId::TEST002,
            category: RuleCategory::Testing,
            name: "model-tests",
            short_description: "Models must have model-level tests",
            long_description: "A test must be attached to the resource itself.",
        }
    }

    /// The descriptor of the rule that asks for a test on every column.
    pub fn column_tests_rule() -> (info: &'static RuleInfo)
        ensures
            info@ == rule_info(RuleId::TEST003),
    {
        &RuleInfo {
            id: RuleId::TEST003,
            category: RuleCategory::Testing,
            name: "column-tests",
            short_description: "Specific columns must have tests",
            long_description: "Every declared column must have a test attached to it.",
        }
    }

    /// The descriptor of a rule. Every rule has one.
    pub fn get_rule(id: &RuleId) -> (info: Option<&'static RuleInfo>)
        ensures
            info is Some,
            info.unwrap()@ == rule_info(*id),
    {
        match id {
            RuleId::DOC001 => Some(RuleRegistry::description_rule()),
            RuleId::TEST001 => Some(RuleRegistry::tests_rule()),
            RuleId::TEST002 => Some(RuleRegistry::model_tests_rule()),
            RuleId::TEST003 => Some(RuleRegistry::column_tests_rule()),
        }
    }

    /// The descriptor of the rule with the code `id`; `None` where no rule has
    /// that code.
    pub fn get_rule_by_str(id: &str) -> (info: Option<&'static RuleInfo>)
        ensures
            match RuleId::coded(id@) {
                Some(rule) => info is Some && info.unwrap()@ == rule_info(rule),
                None => info is None,
            },
    {
        match RuleId::from_str(id) {
            Some(rule) => RuleRegistry::get_rule(&rule),
            None => None,
        }
    }

    /// The descriptors of all rules, in the order of the catalog.
    pub fn get_all_rules() -> (infos: Vec<&'static RuleInfo>)
        ensures
            info_views(infos@) == catalog(),
    {
        let mut infos: Vec<&'static RuleInfo> = Vec::new();
        infos.push(RuleRegistry::description_rule());
        infos.push(RuleRegistry::tests_rule());
        infos.push(RuleRegistry::model_tests_rule());
        infos.push(RuleRegistry::column_tests_rule());
        assert(info_views(infos@) =~= catalog());
        infos
    }

    /// The descriptors of the rules of one category, in the order of the
    /// catalog.
    pub fn get_rules_by_category(category: &RuleCategory) -> (infos: Vec<&'static RuleInfo>)
        ensures
            info_views(infos@) == catalog().filter(
                |info: RuleInfoView| info.category == *category,
            ),
    {
        let all = RuleRegistry::get_all_rules();
        let ghost wanted = |info: RuleInfoView| info.category == *category;
        let mut infos: Vec<&'static RuleInfo> = Vec::new();
        let mut i: usize = 0;
        assert(catalog().take(0).filter(wanted) =~= Seq::empty());
        assert(info_views(infos@) =~= Seq::empty());
        while i < all.len()
            invariant
                i <= all.len(),
                info_views(all@) == catalog(),
                wanted == |info: RuleInfoView| info.category == *category,
                info_views(infos@) == catalog().take(i as int).filter(wanted),
            decreases all.len() - i,
        {
            let info = all[i];
            proof {
                assert(info_views(all@)[i as int] == info@);
                assert(catalog().take(i + 1) =~= catalog().take(i as int).push(info@));
                catalog().take(i as int).lemma_filter_push(info@, wanted);
            }
            if info.category == *category {
                let ghost before = infos@;
                infos.push(info);
                assert(info_views(infos@) =~= info_views(before).push(info@));
            }
            i += 1;
        }
        assert(catalog().take(all.len() as int) =~= catalog());
        infos
    }
}

/// Every rule is found again by its own code: no two rules share a code.
pub proof fn lemma_rule_code_round_trip(id: RuleId)
    ensures
        RuleId::coded(id.code()) == Some(id),
{
    reveal_strlit("DOC001");
    reveal_strlit("TEST001");
    reveal_strlit("TEST002");
    reveal_strlit("TEST003");
    assert("DOC001"@.len() == 6);
    assert("TEST001"@.len() == 7);
    assert("TEST001"@[6] == '1');
    assert("TEST002"@[6] == '2');
    assert("TEST003"@[6] == '3');
}

/// The code of every rule starts with the prefix of its category.
pub proof fn lemma_rule_code_starts_with_prefix(id: RuleId)
    ensures
        id.category().prefix_text().is_prefix_of(id.code()),
{
    reveal_strlit("DOC001");
    reveal_strlit("TEST001");
    reveal_strlit("TEST002");
    reveal_strlit("TEST003");
    reveal_strlit("DOC");
    reveal_strlit("TEST");
    let prefix = id.category().prefix_text();
    let code = id.code();
    assert(prefix.len() <= code.len());
    assert(prefix =~= code.subrange(0, prefix.len() as int));
}

} // verus!
