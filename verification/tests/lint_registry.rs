use icskit::lint::rules::{Rule, RuleKind};
use icskit::lint::Severity;

#[test]
fn rule_kinds_report_their_rules_ids_and_severities() {
    assert_eq!(RuleKind::RequiredUid.id(), "RFC5545/required-uid");
    assert_eq!(RuleKind::RequiredUid.default_severity(), Severity::Error);
    assert_eq!(RuleKind::EmptySummary.id(), "RFC5545/empty-summary");
    assert_eq!(RuleKind::EmptySummary.default_severity(), Severity::Warning);
    assert_eq!(RuleKind::MicrosoftOnly.id(), "vendor/microsoft-only");
    assert_eq!(RuleKind::MicrosoftOnly.default_severity(), Severity::Info);
    assert_eq!(RuleKind::Bom.id(), "text/bom");
    assert_eq!(RuleKind::OrphanEnd.id(), "structure/orphan-end");
    assert_eq!(RuleKind::OrphanEnd.default_severity(), Severity::Error);
    assert_eq!(RuleKind::EmptyCalendar.default_severity(), Severity::Info);
}
