//! The linter: a list of rules, each with a distinct id, run in order.
use vstd::prelude::*;
use crate::lint::config::LintConfig;
use crate::lint::error::{ErrorView, Severity, opt_str_view};
use crate::lint::report::LintReport;
use crate::lint::rule::Rule;
use crate::text::{utf8_len, str_eq};

verus! {

/// Every rule that the linters provide.
#[derive(Clone, Copy, Debug)]
pub enum LintRule {
    C001(crate::linters::c::TrailingWhitespace),
    C010(crate::linters::c::GetsUsage),
    C020(crate::linters::c::StrcpyUsage),
    C030(crate::linters::c::SprintfUsage),
    C040(crate::linters::c::AssignmentInCondition),
    C050(crate::linters::c::GlobalVariableUsage),
    C060(crate::linters::c::MissingReturnInNonVoid),
    C090(crate::linters::c::UnreachableCode),
    CPP001(crate::linters::cpp::TrailingWhitespace),
    CPP010(crate::linters::cpp::UsingNamespaceStd),
    CPP020(crate::linters::cpp::RawNewUsage),
    CPP021(crate::linters::cpp::RawDeleteUsage),
    CPP030(crate::linters::cpp::MallocUsage),
    CPP040(crate::linters::cpp::CStyleCastUsage),
    CPP050(crate::linters::cpp::PrintfUsage),
    CPP060(crate::linters::cpp::NullMacroUsage),
    CPP090(crate::linters::cpp::UnreachableCode),
    CS001(crate::linters::csharp::TrailingWhitespace),
    CS010(crate::linters::csharp::ConsoleWriteLineUsage),
    CS020(crate::linters::csharp::AsyncVoidUsage),
    CS030(crate::linters::csharp::TaskResultUsage),
    CS040(crate::linters::csharp::EmptyCatchBlock),
    CS050(crate::linters::csharp::NullForgivingOperator),
    CS060(crate::linters::csharp::PublicFieldUsage),
    CS090(crate::linters::csharp::UnreachableCode),
    DART001(crate::linters::dart::TrailingWhitespace),
    DART010(crate::linters::dart::PrintUsage),
    DART020(crate::linters::dart::DynamicUsage),
    DART030(crate::linters::dart::AsyncVoidUsage),
    DART040(crate::linters::dart::NullAssertionUsage),
    DART050(crate::linters::dart::SetStateWithoutMountedCheck),
    DART060(crate::linters::dart::MissingReturnType),
    DART090(crate::linters::dart::UnreachableCode),
    HTML001(crate::linters::html::TrailingWhitespace),
    HTML002(crate::linters::html::MissingDoctype),
    HTML003(crate::linters::html::LowercaseTags),
    HTML004(crate::linters::html::EmptyAltAttribute),
    HTML005(crate::linters::html::MissingClosingTag),
    HTML006(crate::linters::html::MultipleSpacesBetweenAttributes),
    JAVA001(crate::linters::java::TrailingWhitespace),
    JAVA010(crate::linters::java::MissingPackageDeclaration),
    JAVA011(crate::linters::java::MultiplePublicClasses),
    JAVA020(crate::linters::java::SystemOutUsage),
    JAVA021(crate::linters::java::EmptyCatchBlock),
    JAVA030(crate::linters::java::EqualsWithoutHashCode),
    JAVA031(crate::linters::java::RawTypeUsage),
    JAVA040(crate::linters::java::ThrowingGenericException),
    JAVA050(crate::linters::java::UnreachableCode),
    JAVA060(crate::linters::java::MutablePublicField),
    JAVA070(crate::linters::java::StringComparisonUsingDoubleEquals),
    JS001(crate::linters::javascript::TrailingWhitespace),
    JS002(crate::linters::javascript::MissingSemicolon),
    JS003(crate::linters::javascript::DoubleSemicolon),
    JS004(crate::linters::javascript::MissingSpaceAfterComma),
    JS005(crate::linters::javascript::VarInsteadOfLetConst),
    JS006(crate::linters::javascript::DebuggerStatement),
    JS007(crate::linters::javascript::UppercaseBooleanJS),
    JS008(crate::linters::javascript::ExtraSpacesBeforeBrace),
    ASM001(crate::linters::nasm::TrailingWhitespace),
    ASM010(crate::linters::nasm::MissingGlobalStart),
    ASM011(crate::linters::nasm::MultipleTextSections),
    ASM020(crate::linters::nasm::UnsafeIntUsage),
    ASM021(crate::linters::nasm::DeprecatedInstruction),
    ASM030(crate::linters::nasm::StackImbalance),
    ASM031(crate::linters::nasm::PushWithoutPop),
    ASM040(crate::linters::nasm::UnusedLabel),
    ASM050(crate::linters::nasm::JumpToNextInstruction),
    ASM060(crate::linters::nasm::HardcodedAddress),
    ASM070(crate::linters::nasm::MissingBitsDirective),
    ASM080(crate::linters::nasm::RedundantMov),
    ASM081(crate::linters::nasm::ZeroWithMovInsteadOfXor),
    PHP001(crate::linters::php::TrailingWhitespace),
    PHP042(crate::linters::php::StrictTypesDeclaration),
    PHP160(crate::linters::php::LooseComparison),
    PHP100(crate::linters::php::EvalUsage),
    PHP101(crate::linters::php::ExecUsage),
    PHP162(crate::linters::php::GlobalUsage),
    PHP121(crate::linters::php::UnusedImport),
    PHP200(crate::linters::php::MissingNamespace),
    PHP181(crate::linters::php::ArrayLongSyntax),
    PHP260(crate::linters::php::UnreachableCode),
    PHP061(crate::linters::php::AssignmentInCondition),
    PHP062(crate::linters::php::EmptyCatchBlock),
    PHP163(crate::linters::php::MultipleClassesPerFile),
    PHP161(crate::linters::php::MagicNumber),
    PHP102(crate::linters::php::DirectSuperglobalAccess),
    PY001(crate::linters::python::TrailingWhitespace),
    PY010(crate::linters::python::MissingShebang),
    PY020(crate::linters::python::ExecUsage),
    PY021(crate::linters::python::EvalUsage),
    PY030(crate::linters::python::WildcardImport),
    PY031(crate::linters::python::BareExcept),
    PY040(crate::linters::python::MutableDefaultArgument),
    PY050(crate::linters::python::ComparisonToNoneUsingDoubleEquals),
    PY060(crate::linters::python::AssertUsedInProduction),
    PY070(crate::linters::python::UnreachableCode),
    R001(crate::linters::r::TrailingWhitespace),
    R010(crate::linters::r::EqualsAssignmentUsage),
    R020(crate::linters::r::AttachUsage),
    R021(crate::linters::r::SetwdUsage),
    R030(crate::linters::r::LibraryInsideFunction),
    R040(crate::linters::r::HardcodedFilePath),
    R050(crate::linters::r::LoopInsteadOfVectorization),
    R060(crate::linters::r::PartialArgumentMatching),
    R070(crate::linters::r::UnreachableCode),
    RUST001(crate::linters::rust::TrailingWhitespace),
    RUST002(crate::linters::rust::TabIndentation),
    RUST003(crate::linters::rust::MissingSpaceAfterComma),
    RUST004(crate::linters::rust::SpaceBeforeBrace),
    RUST005(crate::linters::rust::UppercaseBoolean),
    RUST006(crate::linters::rust::UnwrapUsage),
    RUST007(crate::linters::rust::TodoMacro),
    RUST008(crate::linters::rust::DebugMacro),
    RUST009(crate::linters::rust::DoubleSemicolon),
    RUST010(crate::linters::rust::WildcardImport),
    RUST011(crate::linters::rust::EmptyBlock),
    RUST012(crate::linters::rust::TrailingNewline),
    SQL001(crate::linters::sql::TrailingWhitespace),
    SQL010(crate::linters::sql::SelectStarUsage),
    SQL020(crate::linters::sql::DeleteWithoutWhere),
    SQL021(crate::linters::sql::UpdateWithoutWhere),
    SQL030(crate::linters::sql::DropTableUsage),
    SQL040(crate::linters::sql::ImplicitJoinSyntax),
    SQL050(crate::linters::sql::NotInWithNullRisk),
    SQL060(crate::linters::sql::OrInWhereClause),
    SQL070(crate::linters::sql::CreateTableWithoutPrimaryKey),
    TS001(crate::linters::typescript::TrailingWhitespace),
    TS010(crate::linters::typescript::VarUsage),
    TS020(crate::linters::typescript::AnyTypeUsage),
    TS030(crate::linters::typescript::ConsoleLogUsage),
    TS040(crate::linters::typescript::DoubleEqualsUsage),
    TS050(crate::linters::typescript::NonNullAssertionUsage),
    TS060(crate::linters::typescript::MissingReturnType),
    TS070(crate::linters::typescript::UnhandledPromise),
    TS080(crate::linters::typescript::EmptyCatchBlock),
    TS090(crate::linters::typescript::UnreachableCode),
    CSS001(crate::linters::css::rules::info::TrailingWhitespace),
    CSS004(crate::linters::css::rules::info::UppercaseHexColor),
    CSS006(crate::linters::css::rules::info::InlineBlockStyle),
    CSS007(crate::linters::css::rules::info::ZeroWithUnit),
    CSS008(crate::linters::css::rules::info::MultipleBlankLines),
    CSS009(crate::linters::css::rules::info::LeadingZeroDecimal),
    CSS010(crate::linters::css::rules::info::UniversalSelector),
    CSS003(crate::linters::css::rules::error::MissingSemicolon),
    CSS002(crate::linters::css::rules::warning::MissingColonSpace),
    CSS005(crate::linters::css::rules::warning::ImportantUsage),
    MD005(crate::linters::md::rules::image::IncorrectImageSyntax),
    MD016(crate::linters::md::rules::image::MissingAltText),
    MD017(crate::linters::md::rules::image::ImageUrlNotHttps),
    MD018(crate::linters::md::rules::image::SpacesInImageSyntax),
    MD019(crate::linters::md::rules::image::MissingImageTitle),
    MD020(crate::linters::md::rules::image::ImageFileNotExist),
    MD021(crate::linters::md::rules::image::ImageFilenameSpaces),
    MD022(crate::linters::md::rules::image::DuplicateAltText),
    MD024(crate::linters::md::rules::image::ExternalImageHttps),
    MD006(crate::linters::md::rules::list::ListFormatting),
    MD011(crate::linters::md::rules::list::MixedListMarkers),
    MD030(crate::linters::md::rules::list::TrailingSpacesInList),
    MD031(crate::linters::md::rules::list::BlankLineAfterListItem),
    MD032(crate::linters::md::rules::list::SeparateConsecutiveLists),
    MD033(crate::linters::md::rules::list::OrderedListNumbering),
}

impl Rule for LintRule {
    open spec fn spec_id(&self) -> Seq<char> {
        match self {
            LintRule::C001(r) => r.spec_id(),
            LintRule::C010(r) => r.spec_id(),
            LintRule::C020(r) => r.spec_id(),
            LintRule::C030(r) => r.spec_id(),
            LintRule::C040(r) => r.spec_id(),
            LintRule::C050(r) => r.spec_id(),
            LintRule::C060(r) => r.spec_id(),
            LintRule::C090(r) => r.spec_id(),
            LintRule::CPP001(r) => r.spec_id(),
            LintRule::CPP010(r) => r.spec_id(),
            LintRule::CPP020(r) => r.spec_id(),
            LintRule::CPP021(r) => r.spec_id(),
            LintRule::CPP030(r) => r.spec_id(),
            LintRule::CPP040(r) => r.spec_id(),
            LintRule::CPP050(r) => r.spec_id(),
            LintRule::CPP060(r) => r.spec_id(),
            LintRule::CPP090(r) => r.spec_id(),
            LintRule::CS001(r) => r.spec_id(),
            LintRule::CS010(r) => r.spec_id(),
            LintRule::CS020(r) => r.spec_id(),
            LintRule::CS030(r) => r.spec_id(),
            LintRule::CS040(r) => r.spec_id(),
            LintRule::CS050(r) => r.spec_id(),
            LintRule::CS060(r) => r.spec_id(),
            LintRule::CS090(r) => r.spec_id(),
            LintRule::DART001(r) => r.spec_id(),
            LintRule::DART010(r) => r.spec_id(),
            LintRule::DART020(r) => r.spec_id(),
            LintRule::DART030(r) => r.spec_id(),
            LintRule::DART040(r) => r.spec_id(),
            LintRule::DART050(r) => r.spec_id(),
            LintRule::DART060(r) => r.spec_id(),
            LintRule::DART090(r) => r.spec_id(),
            LintRule::HTML001(r) => r.spec_id(),
            LintRule::HTML002(r) => r.spec_id(),
            LintRule::HTML003(r) => r.spec_id(),
            LintRule::HTML004(r) => r.spec_id(),
            LintRule::HTML005(r) => r.spec_id(),
            LintRule::HTML006(r) => r.spec_id(),
            LintRule::JAVA001(r) => r.spec_id(),
            LintRule::JAVA010(r) => r.spec_id(),
            LintRule::JAVA011(r) => r.spec_id(),
            LintRule::JAVA020(r) => r.spec_id(),
            LintRule::JAVA021(r) => r.spec_id(),
            LintRule::JAVA030(r) => r.spec_id(),
            LintRule::JAVA031(r) => r.spec_id(),
            LintRule::JAVA040(r) => r.spec_id(),
            LintRule::JAVA050(r) => r.spec_id(),
            LintRule::JAVA060(r) => r.spec_id(),
            LintRule::JAVA070(r) => r.spec_id(),
            LintRule::JS001(r) => r.spec_id(),
            LintRule::JS002(r) => r.spec_id(),
            LintRule::JS003(r) => r.spec_id(),
            LintRule::JS004(r) => r.spec_id(),
            LintRule::JS005(r) => r.spec_id(),
            LintRule::JS006(r) => r.spec_id(),
            LintRule::JS007(r) => r.spec_id(),
            LintRule::JS008(r) => r.spec_id(),
            LintRule::ASM001(r) => r.spec_id(),
            LintRule::ASM010(r) => r.spec_id(),
            LintRule::ASM011(r) => r.spec_id(),
            LintRule::ASM020(r) => r.spec_id(),
            LintRule::ASM021(r) => r.spec_id(),
            LintRule::ASM030(r) => r.spec_id(),
            LintRule::ASM031(r) => r.spec_id(),
            LintRule::ASM040(r) => r.spec_id(),
            LintRule::ASM050(r) => r.spec_id(),
            LintRule::ASM060(r) => r.spec_id(),
            LintRule::ASM070(r) => r.spec_id(),
            LintRule::ASM080(r) => r.spec_id(),
            LintRule::ASM081(r) => r.spec_id(),
            LintRule::PHP001(r) => r.spec_id(),
            LintRule::PHP042(r) => r.spec_id(),
            LintRule::PHP160(r) => r.spec_id(),
            LintRule::PHP100(r) => r.spec_id(),
            LintRule::PHP101(r) => r.spec_id(),
            LintRule::PHP162(r) => r.spec_id(),
            LintRule::PHP121(r) => r.spec_id(),
            LintRule::PHP200(r) => r.spec_id(),
            LintRule::PHP181(r) => r.spec_id(),
            LintRule::PHP260(r) => r.spec_id(),
            LintRule::PHP061(r) => r.spec_id(),
            LintRule::PHP062(r) => r.spec_id(),
            LintRule::PHP163(r) => r.spec_id(),
            LintRule::PHP161(r) => r.spec_id(),
            LintRule::PHP102(r) => r.spec_id(),
            LintRule::PY001(r) => r.spec_id(),
            LintRule::PY010(r) => r.spec_id(),
            LintRule::PY020(r) => r.spec_id(),
            LintRule::PY021(r) => r.spec_id(),
            LintRule::PY030(r) => r.spec_id(),
            LintRule::PY031(r) => r.spec_id(),
            LintRule::PY040(r) => r.spec_id(),
            LintRule::PY050(r) => r.spec_id(),
            LintRule::PY060(r) => r.spec_id(),
            LintRule::PY070(r) => r.spec_id(),
            LintRule::R001(r) => r.spec_id(),
            LintRule::R010(r) => r.spec_id(),
            LintRule::R020(r) => r.spec_id(),
            LintRule::R021(r) => r.spec_id(),
            LintRule::R030(r) => r.spec_id(),
            LintRule::R040(r) => r.spec_id(),
            LintRule::R050(r) => r.spec_id(),
            LintRule::R060(r) => r.spec_id(),
            LintRule::R070(r) => r.spec_id(),
            LintRule::RUST001(r) => r.spec_id(),
            LintRule::RUST002(r) => r.spec_id(),
            LintRule::RUST003(r) => r.spec_id(),
            LintRule::RUST004(r) => r.spec_id(),
            LintRule::RUST005(r) => r.spec_id(),
            LintRule::RUST006(r) => r.spec_id(),
            LintRule::RUST007(r) => r.spec_id(),
            LintRule::RUST008(r) => r.spec_id(),
            LintRule::RUST009(r) => r.spec_id(),
            LintRule::RUST010(r) => r.spec_id(),
            LintRule::RUST011(r) => r.spec_id(),
            LintRule::RUST012(r) => r.spec_id(),
            LintRule::SQL001(r) => r.spec_id(),
            LintRule::SQL010(r) => r.spec_id(),
            LintRule::SQL020(r) => r.spec_id(),
            LintRule::SQL021(r) => r.spec_id(),
            LintRule::SQL030(r) => r.spec_id(),
            LintRule::SQL040(r) => r.spec_id(),
            LintRule::SQL050(r) => r.spec_id(),
            LintRule::SQL060(r) => r.spec_id(),
            LintRule::SQL070(r) => r.spec_id(),
            LintRule::TS001(r) => r.spec_id(),
            LintRule::TS010(r) => r.spec_id(),
            LintRule::TS020(r) => r.spec_id(),
            LintRule::TS030(r) => r.spec_id(),
            LintRule::TS040(r) => r.spec_id(),
            LintRule::TS050(r) => r.spec_id(),
            LintRule::TS060(r) => r.spec_id(),
            LintRule::TS070(r) => r.spec_id(),
            LintRule::TS080(r) => r.spec_id(),
            LintRule::TS090(r) => r.spec_id(),
            LintRule::CSS001(r) => r.spec_id(),
            LintRule::CSS004(r) => r.spec_id(),
            LintRule::CSS006(r) => r.spec_id(),
            LintRule::CSS007(r) => r.spec_id(),
            LintRule::CSS008(r) => r.spec_id(),
            LintRule::CSS009(r) => r.spec_id(),
            LintRule::CSS010(r) => r.spec_id(),
            LintRule::CSS003(r) => r.spec_id(),
            LintRule::CSS002(r) => r.spec_id(),
            LintRule::CSS005(r) => r.spec_id(),
            LintRule::MD005(r) => r.spec_id(),
            LintRule::MD016(r) => r.spec_id(),
            LintRule::MD017(r) => r.spec_id(),
            LintRule::MD018(r) => r.spec_id(),
            LintRule::MD019(r) => r.spec_id(),
            LintRule::MD020(r) => r.spec_id(),
            LintRule::MD021(r) => r.spec_id(),
            LintRule::MD022(r) => r.spec_id(),
            LintRule::MD024(r) => r.spec_id(),
            LintRule::MD006(r) => r.spec_id(),
            LintRule::MD011(r) => r.spec_id(),
            LintRule::MD030(r) => r.spec_id(),
            LintRule::MD031(r) => r.spec_id(),
            LintRule::MD032(r) => r.spec_id(),
            LintRule::MD033(r) => r.spec_id(),
        }
    }

    open spec fn spec_severity(&self) -> Severity {
        match self {
            LintRule::C001(r) => r.spec_severity(),
            LintRule::C010(r) => r.spec_severity(),
            LintRule::C020(r) => r.spec_severity(),
            LintRule::C030(r) => r.spec_severity(),
            LintRule::C040(r) => r.spec_severity(),
            LintRule::C050(r) => r.spec_severity(),
            LintRule::C060(r) => r.spec_severity(),
            LintRule::C090(r) => r.spec_severity(),
            LintRule::CPP001(r) => r.spec_severity(),
            LintRule::CPP010(r) => r.spec_severity(),
            LintRule::CPP020(r) => r.spec_severity(),
            LintRule::CPP021(r) => r.spec_severity(),
            LintRule::CPP030(r) => r.spec_severity(),
            LintRule::CPP040(r) => r.spec_severity(),
            LintRule::CPP050(r) => r.spec_severity(),
            LintRule::CPP060(r) => r.spec_severity(),
            LintRule::CPP090(r) => r.spec_severity(),
            LintRule::CS001(r) => r.spec_severity(),
            LintRule::CS010(r) => r.spec_severity(),
            LintRule::CS020(r) => r.spec_severity(),
            LintRule::CS030(r) => r.spec_severity(),
            LintRule::CS040(r) => r.spec_severity(),
            LintRule::CS050(r) => r.spec_severity(),
            LintRule::CS060(r) => r.spec_severity(),
            LintRule::CS090(r) => r.spec_severity(),
            LintRule::DART001(r) => r.spec_severity(),
            LintRule::DART010(r) => r.spec_severity(),
            LintRule::DART020(r) => r.spec_severity(),
            LintRule::DART030(r) => r.spec_severity(),
            LintRule::DART040(r) => r.spec_severity(),
            LintRule::DART050(r) => r.spec_severity(),
            LintRule::DART060(r) => r.spec_severity(),
            LintRule::DART090(r) => r.spec_severity(),
            LintRule::HTML001(r) => r.spec_severity(),
            LintRule::HTML002(r) => r.spec_severity(),
            LintRule::HTML003(r) => r.spec_severity(),
            LintRule::HTML004(r) => r.spec_severity(),
            LintRule::HTML005(r) => r.spec_severity(),
            LintRule::HTML006(r) => r.spec_severity(),
            LintRule::JAVA001(r) => r.spec_severity(),
            LintRule::JAVA010(r) => r.spec_severity(),
            LintRule::JAVA011(r) => r.spec_severity(),
            LintRule::JAVA020(r) => r.spec_severity(),
            LintRule::JAVA021(r) => r.spec_severity(),
            LintRule::JAVA030(r) => r.spec_severity(),
            LintRule::JAVA031(r) => r.spec_severity(),
            LintRule::JAVA040(r) => r.spec_severity(),
            LintRule::JAVA050(r) => r.spec_severity(),
            LintRule::JAVA060(r) => r.spec_severity(),
            LintRule::JAVA070(r) => r.spec_severity(),
            LintRule::JS001(r) => r.spec_severity(),
            LintRule::JS002(r) => r.spec_severity(),
            LintRule::JS003(r) => r.spec_severity(),
            LintRule::JS004(r) => r.spec_severity(),
            LintRule::JS005(r) => r.spec_severity(),
            LintRule::JS006(r) => r.spec_severity(),
            LintRule::JS007(r) => r.spec_severity(),
            LintRule::JS008(r) => r.spec_severity(),
            LintRule::ASM001(r) => r.spec_severity(),
            LintRule::ASM010(r) => r.spec_severity(),
            LintRule::ASM011(r) => r.spec_severity(),
            LintRule::ASM020(r) => r.spec_severity(),
            LintRule::ASM021(r) => r.spec_severity(),
            LintRule::ASM030(r) => r.spec_severity(),
            LintRule::ASM031(r) => r.spec_severity(),
            LintRule::ASM040(r) => r.spec_severity(),
            LintRule::ASM050(r) => r.spec_severity(),
            LintRule::ASM060(r) => r.spec_severity(),
            LintRule::ASM070(r) => r.spec_severity(),
            LintRule::ASM080(r) => r.spec_severity(),
            LintRule::ASM081(r) => r.spec_severity(),
            LintRule::PHP001(r) => r.spec_severity(),
            LintRule::PHP042(r) => r.spec_severity(),
            LintRule::PHP160(r) => r.spec_severity(),
            LintRule::PHP100(r) => r.spec_severity(),
            LintRule::PHP101(r) => r.spec_severity(),
            LintRule::PHP162(r) => r.spec_severity(),
            LintRule::PHP121(r) => r.spec_severity(),
            LintRule::PHP200(r) => r.spec_severity(),
            LintRule::PHP181(r) => r.spec_severity(),
            LintRule::PHP260(r) => r.spec_severity(),
            LintRule::PHP061(r) => r.spec_severity(),
            LintRule::PHP062(r) => r.spec_severity(),
            LintRule::PHP163(r) => r.spec_severity(),
            LintRule::PHP161(r) => r.spec_severity(),
            LintRule::PHP102(r) => r.spec_severity(),
            LintRule::PY001(r) => r.spec_severity(),
            LintRule::PY010(r) => r.spec_severity(),
            LintRule::PY020(r) => r.spec_severity(),
            LintRule::PY021(r) => r.spec_severity(),
            LintRule::PY030(r) => r.spec_severity(),
            LintRule::PY031(r) => r.spec_severity(),
            LintRule::PY040(r) => r.spec_severity(),
            LintRule::PY050(r) => r.spec_severity(),
            LintRule::PY060(r) => r.spec_severity(),
            LintRule::PY070(r) => r.spec_severity(),
            LintRule::R001(r) => r.spec_severity(),
            LintRule::R010(r) => r.spec_severity(),
            LintRule::R020(r) => r.spec_severity(),
            LintRule::R021(r) => r.spec_severity(),
            LintRule::R030(r) => r.spec_severity(),
            LintRule::R040(r) => r.spec_severity(),
            LintRule::R050(r) => r.spec_severity(),
            LintRule::R060(r) => r.spec_severity(),
            LintRule::R070(r) => r.spec_severity(),
            LintRule::RUST001(r) => r.spec_severity(),
            LintRule::RUST002(r) => r.spec_severity(),
            LintRule::RUST003(r) => r.spec_severity(),
            LintRule::RUST004(r) => r.spec_severity(),
            LintRule::RUST005(r) => r.spec_severity(),
            LintRule::RUST006(r) => r.spec_severity(),
            LintRule::RUST007(r) => r.spec_severity(),
            LintRule::RUST008(r) => r.spec_severity(),
            LintRule::RUST009(r) => r.spec_severity(),
            LintRule::RUST010(r) => r.spec_severity(),
            LintRule::RUST011(r) => r.spec_severity(),
            LintRule::RUST012(r) => r.spec_severity(),
            LintRule::SQL001(r) => r.spec_severity(),
            LintRule::SQL010(r) => r.spec_severity(),
            LintRule::SQL020(r) => r.spec_severity(),
            LintRule::SQL021(r) => r.spec_severity(),
            LintRule::SQL030(r) => r.spec_severity(),
            LintRule::SQL040(r) => r.spec_severity(),
            LintRule::SQL050(r) => r.spec_severity(),
            LintRule::SQL060(r) => r.spec_severity(),
            LintRule::SQL070(r) => r.spec_severity(),
            LintRule::TS001(r) => r.spec_severity(),
            LintRule::TS010(r) => r.spec_severity(),
            LintRule::TS020(r) => r.spec_severity(),
            LintRule::TS030(r) => r.spec_severity(),
            LintRule::TS040(r) => r.spec_severity(),
            LintRule::TS050(r) => r.spec_severity(),
            LintRule::TS060(r) => r.spec_severity(),
            LintRule::TS070(r) => r.spec_severity(),
            LintRule::TS080(r) => r.spec_severity(),
            LintRule::TS090(r) => r.spec_severity(),
            LintRule::CSS001(r) => r.spec_severity(),
            LintRule::CSS004(r) => r.spec_severity(),
            LintRule::CSS006(r) => r.spec_severity(),
            LintRule::CSS007(r) => r.spec_severity(),
            LintRule::CSS008(r) => r.spec_severity(),
            LintRule::CSS009(r) => r.spec_severity(),
            LintRule::CSS010(r) => r.spec_severity(),
            LintRule::CSS003(r) => r.spec_severity(),
            LintRule::CSS002(r) => r.spec_severity(),
            LintRule::CSS005(r) => r.spec_severity(),
            LintRule::MD005(r) => r.spec_severity(),
            LintRule::MD016(r) => r.spec_severity(),
            LintRule::MD017(r) => r.spec_severity(),
            LintRule::MD018(r) => r.spec_severity(),
            LintRule::MD019(r) => r.spec_severity(),
            LintRule::MD020(r) => r.spec_severity(),
            LintRule::MD021(r) => r.spec_severity(),
            LintRule::MD022(r) => r.spec_severity(),
            LintRule::MD024(r) => r.spec_severity(),
            LintRule::MD006(r) => r.spec_severity(),
            LintRule::MD011(r) => r.spec_severity(),
            LintRule::MD030(r) => r.spec_severity(),
            LintRule::MD031(r) => r.spec_severity(),
            LintRule::MD032(r) => r.spec_severity(),
            LintRule::MD033(r) => r.spec_severity(),
        }
    }

    open spec fn is_pure(&self) -> bool {
        match self {
            LintRule::C001(r) => r.is_pure(),
            LintRule::C010(r) => r.is_pure(),
            LintRule::C020(r) => r.is_pure(),
            LintRule::C030(r) => r.is_pure(),
            LintRule::C040(r) => r.is_pure(),
            LintRule::C050(r) => r.is_pure(),
            LintRule::C060(r) => r.is_pure(),
            LintRule::C090(r) => r.is_pure(),
            LintRule::CPP001(r) => r.is_pure(),
            LintRule::CPP010(r) => r.is_pure(),
            LintRule::CPP020(r) => r.is_pure(),
            LintRule::CPP021(r) => r.is_pure(),
            LintRule::CPP030(r) => r.is_pure(),
            LintRule::CPP040(r) => r.is_pure(),
            LintRule::CPP050(r) => r.is_pure(),
            LintRule::CPP060(r) => r.is_pure(),
            LintRule::CPP090(r) => r.is_pure(),
            LintRule::CS001(r) => r.is_pure(),
            LintRule::CS010(r) => r.is_pure(),
            LintRule::CS020(r) => r.is_pure(),
            LintRule::CS030(r) => r.is_pure(),
            LintRule::CS040(r) => r.is_pure(),
            LintRule::CS050(r) => r.is_pure(),
            LintRule::CS060(r) => r.is_pure(),
            LintRule::CS090(r) => r.is_pure(),
            LintRule::DART001(r) => r.is_pure(),
            LintRule::DART010(r) => r.is_pure(),
            LintRule::DART020(r) => r.is_pure(),
            LintRule::DART030(r) => r.is_pure(),
            LintRule::DART040(r) => r.is_pure(),
            LintRule::DART050(r) => r.is_pure(),
            LintRule::DART060(r) => r.is_pure(),
            LintRule::DART090(r) => r.is_pure(),
            LintRule::HTML001(r) => r.is_pure(),
            LintRule::HTML002(r) => r.is_pure(),
            LintRule::HTML003(r) => r.is_pure(),
            LintRule::HTML004(r) => r.is_pure(),
            LintRule::HTML005(r) => r.is_pure(),
            LintRule::HTML006(r) => r.is_pure(),
            LintRule::JAVA001(r) => r.is_pure(),
            LintRule::JAVA010(r) => r.is_pure(),
            LintRule::JAVA011(r) => r.is_pure(),
            LintRule::JAVA020(r) => r.is_pure(),
            LintRule::JAVA021(r) => r.is_pure(),
            LintRule::JAVA030(r) => r.is_pure(),
            LintRule::JAVA031(r) => r.is_pure(),
            LintRule::JAVA040(r) => r.is_pure(),
            LintRule::JAVA050(r) => r.is_pure(),
            LintRule::JAVA060(r) => r.is_pure(),
            LintRule::JAVA070(r) => r.is_pure(),
            LintRule::JS001(r) => r.is_pure(),
            LintRule::JS002(r) => r.is_pure(),
            LintRule::JS003(r) => r.is_pure(),
            LintRule::JS004(r) => r.is_pure(),
            LintRule::JS005(r) => r.is_pure(),
            LintRule::JS006(r) => r.is_pure(),
            LintRule::JS007(r) => r.is_pure(),
            LintRule::JS008(r) => r.is_pure(),
            LintRule::ASM001(r) => r.is_pure(),
            LintRule::ASM010(r) => r.is_pure(),
            LintRule::ASM011(r) => r.is_pure(),
            LintRule::ASM020(r) => r.is_pure(),
            LintRule::ASM021(r) => r.is_pure(),
            LintRule::ASM030(r) => r.is_pure(),
            LintRule::ASM031(r) => r.is_pure(),
            LintRule::ASM040(r) => r.is_pure(),
            LintRule::ASM050(r) => r.is_pure(),
            LintRule::ASM060(r) => r.is_pure(),
            LintRule::ASM070(r) => r.is_pure(),
            LintRule::ASM080(r) => r.is_pure(),
            LintRule::ASM081(r) => r.is_pure(),
            LintRule::PHP001(r) => r.is_pure(),
            LintRule::PHP042(r) => r.is_pure(),
            LintRule::PHP160(r) => r.is_pure(),
            LintRule::PHP100(r) => r.is_pure(),
            LintRule::PHP101(r) => r.is_pure(),
            LintRule::PHP162(r) => r.is_pure(),
            LintRule::PHP121(r) => r.is_pure(),
            LintRule::PHP200(r) => r.is_pure(),
            LintRule::PHP181(r) => r.is_pure(),
            LintRule::PHP260(r) => r.is_pure(),
            LintRule::PHP061(r) => r.is_pure(),
            LintRule::PHP062(r) => r.is_pure(),
            LintRule::PHP163(r) => r.is_pure(),
            LintRule::PHP161(r) => r.is_pure(),
            LintRule::PHP102(r) => r.is_pure(),
            LintRule::PY001(r) => r.is_pure(),
            LintRule::PY010(r) => r.is_pure(),
            LintRule::PY020(r) => r.is_pure(),
            LintRule::PY021(r) => r.is_pure(),
            LintRule::PY030(r) => r.is_pure(),
            LintRule::PY031(r) => r.is_pure(),
            LintRule::PY040(r) => r.is_pure(),
            LintRule::PY050(r) => r.is_pure(),
            LintRule::PY060(r) => r.is_pure(),
            LintRule::PY070(r) => r.is_pure(),
            LintRule::R001(r) => r.is_pure(),
            LintRule::R010(r) => r.is_pure(),
            LintRule::R020(r) => r.is_pure(),
            LintRule::R021(r) => r.is_pure(),
            LintRule::R030(r) => r.is_pure(),
            LintRule::R040(r) => r.is_pure(),
            LintRule::R050(r) => r.is_pure(),
            LintRule::R060(r) => r.is_pure(),
            LintRule::R070(r) => r.is_pure(),
            LintRule::RUST001(r) => r.is_pure(),
            LintRule::RUST002(r) => r.is_pure(),
            LintRule::RUST003(r) => r.is_pure(),
            LintRule::RUST004(r) => r.is_pure(),
            LintRule::RUST005(r) => r.is_pure(),
            LintRule::RUST006(r) => r.is_pure(),
            LintRule::RUST007(r) => r.is_pure(),
            LintRule::RUST008(r) => r.is_pure(),
            LintRule::RUST009(r) => r.is_pure(),
            LintRule::RUST010(r) => r.is_pure(),
            LintRule::RUST011(r) => r.is_pure(),
            LintRule::RUST012(r) => r.is_pure(),
            LintRule::SQL001(r) => r.is_pure(),
            LintRule::SQL010(r) => r.is_pure(),
            LintRule::SQL020(r) => r.is_pure(),
            LintRule::SQL021(r) => r.is_pure(),
            LintRule::SQL030(r) => r.is_pure(),
            LintRule::SQL040(r) => r.is_pure(),
            LintRule::SQL050(r) => r.is_pure(),
            LintRule::SQL060(r) => r.is_pure(),
            LintRule::SQL070(r) => r.is_pure(),
            LintRule::TS001(r) => r.is_pure(),
            LintRule::TS010(r) => r.is_pure(),
            LintRule::TS020(r) => r.is_pure(),
            LintRule::TS030(r) => r.is_pure(),
            LintRule::TS040(r) => r.is_pure(),
            LintRule::TS050(r) => r.is_pure(),
            LintRule::TS060(r) => r.is_pure(),
            LintRule::TS070(r) => r.is_pure(),
            LintRule::TS080(r) => r.is_pure(),
            LintRule::TS090(r) => r.is_pure(),
            LintRule::CSS001(r) => r.is_pure(),
            LintRule::CSS004(r) => r.is_pure(),
            LintRule::CSS006(r) => r.is_pure(),
            LintRule::CSS007(r) => r.is_pure(),
            LintRule::CSS008(r) => r.is_pure(),
            LintRule::CSS009(r) => r.is_pure(),
            LintRule::CSS010(r) => r.is_pure(),
            LintRule::CSS003(r) => r.is_pure(),
            LintRule::CSS002(r) => r.is_pure(),
            LintRule::CSS005(r) => r.is_pure(),
            LintRule::MD005(r) => r.is_pure(),
            LintRule::MD016(r) => r.is_pure(),
            LintRule::MD017(r) => r.is_pure(),
            LintRule::MD018(r) => r.is_pure(),
            LintRule::MD019(r) => r.is_pure(),
            LintRule::MD020(r) => r.is_pure(),
            LintRule::MD021(r) => r.is_pure(),
            LintRule::MD022(r) => r.is_pure(),
            LintRule::MD024(r) => r.is_pure(),
            LintRule::MD006(r) => r.is_pure(),
            LintRule::MD011(r) => r.is_pure(),
            LintRule::MD030(r) => r.is_pure(),
            LintRule::MD031(r) => r.is_pure(),
            LintRule::MD032(r) => r.is_pure(),
            LintRule::MD033(r) => r.is_pure(),
        }
    }

    open spec fn accepts(&self, source: Seq<char>, disabled: Seq<Seq<char>>) -> bool {
        match self {
            LintRule::C001(r) => r.accepts(source, disabled),
            LintRule::C010(r) => r.accepts(source, disabled),
            LintRule::C020(r) => r.accepts(source, disabled),
            LintRule::C030(r) => r.accepts(source, disabled),
            LintRule::C040(r) => r.accepts(source, disabled),
            LintRule::C050(r) => r.accepts(source, disabled),
            LintRule::C060(r) => r.accepts(source, disabled),
            LintRule::C090(r) => r.accepts(source, disabled),
            LintRule::CPP001(r) => r.accepts(source, disabled),
            LintRule::CPP010(r) => r.accepts(source, disabled),
            LintRule::CPP020(r) => r.accepts(source, disabled),
            LintRule::CPP021(r) => r.accepts(source, disabled),
            LintRule::CPP030(r) => r.accepts(source, disabled),
            LintRule::CPP040(r) => r.accepts(source, disabled),
            LintRule::CPP050(r) => r.accepts(source, disabled),
            LintRule::CPP060(r) => r.accepts(source, disabled),
            LintRule::CPP090(r) => r.accepts(source, disabled),
            LintRule::CS001(r) => r.accepts(source, disabled),
            LintRule::CS010(r) => r.accepts(source, disabled),
            LintRule::CS020(r) => r.accepts(source, disabled),
            LintRule::CS030(r) => r.accepts(source, disabled),
            LintRule::CS040(r) => r.accepts(source, disabled),
            LintRule::CS050(r) => r.accepts(source, disabled),
            LintRule::CS060(r) => r.accepts(source, disabled),
            LintRule::CS090(r) => r.accepts(source, disabled),
            LintRule::DART001(r) => r.accepts(source, disabled),
            LintRule::DART010(r) => r.accepts(source, disabled),
            LintRule::DART020(r) => r.accepts(source, disabled),
            LintRule::DART030(r) => r.accepts(source, disabled),
            LintRule::DART040(r) => r.accepts(source, disabled),
            LintRule::DART050(r) => r.accepts(source, disabled),
            LintRule::DART060(r) => r.accepts(source, disabled),
            LintRule::DART090(r) => r.accepts(source, disabled),
            LintRule::HTML001(r) => r.accepts(source, disabled),
            LintRule::HTML002(r) => r.accepts(source, disabled),
            LintRule::HTML003(r) => r.accepts(source, disabled),
            LintRule::HTML004(r) => r.accepts(source, disabled),
            LintRule::HTML005(r) => r.accepts(source, disabled),
            LintRule::HTML006(r) => r.accepts(source, disabled),
            LintRule::JAVA001(r) => r.accepts(source, disabled),
            LintRule::JAVA010(r) => r.accepts(source, disabled),
            LintRule::JAVA011(r) => r.accepts(source, disabled),
            LintRule::JAVA020(r) => r.accepts(source, disabled),
            LintRule::JAVA021(r) => r.accepts(source, disabled),
            LintRule::JAVA030(r) => r.accepts(source, disabled),
            LintRule::JAVA031(r) => r.accepts(source, disabled),
            LintRule::JAVA040(r) => r.accepts(source, disabled),
            LintRule::JAVA050(r) => r.accepts(source, disabled),
            LintRule::JAVA060(r) => r.accepts(source, disabled),
            LintRule::JAVA070(r) => r.accepts(source, disabled),
            LintRule::JS001(r) => r.accepts(source, disabled),
            LintRule::JS002(r) => r.accepts(source, disabled),
            LintRule::JS003(r) => r.accepts(source, disabled),
            LintRule::JS004(r) => r.accepts(source, disabled),
            LintRule::JS005(r) => r.accepts(source, disabled),
            LintRule::JS006(r) => r.accepts(source, disabled),
            LintRule::JS007(r) => r.accepts(source, disabled),
            LintRule::JS008(r) => r.accepts(source, disabled),
            LintRule::ASM001(r) => r.accepts(source, disabled),
            LintRule::ASM010(r) => r.accepts(source, disabled),
            LintRule::ASM011(r) => r.accepts(source, disabled),
            LintRule::ASM020(r) => r.accepts(source, disabled),
            LintRule::ASM021(r) => r.accepts(source, disabled),
            LintRule::ASM030(r) => r.accepts(source, disabled),
            LintRule::ASM031(r) => r.accepts(source, disabled),
            LintRule::ASM040(r) => r.accepts(source, disabled),
            LintRule::ASM050(r) => r.accepts(source, disabled),
            LintRule::ASM060(r) => r.accepts(source, disabled),
            LintRule::ASM070(r) => r.accepts(source, disabled),
            LintRule::ASM080(r) => r.accepts(source, disabled),
            LintRule::ASM081(r) => r.accepts(source, disabled),
            LintRule::PHP001(r) => r.accepts(source, disabled),
            LintRule::PHP042(r) => r.accepts(source, disabled),
            LintRule::PHP160(r) => r.accepts(source, disabled),
            LintRule::PHP100(r) => r.accepts(source, disabled),
            LintRule::PHP101(r) => r.accepts(source, disabled),
            LintRule::PHP162(r) => r.accepts(source, disabled),
            LintRule::PHP121(r) => r.accepts(source, disabled),
            LintRule::PHP200(r) => r.accepts(source, disabled),
            LintRule::PHP181(r) => r.accepts(source, disabled),
            LintRule::PHP260(r) => r.accepts(source, disabled),
            LintRule::PHP061(r) => r.accepts(source, disabled),
            LintRule::PHP062(r) => r.accepts(source, disabled),
            LintRule::PHP163(r) => r.accepts(source, disabled),
            LintRule::PHP161(r) => r.accepts(source, disabled),
            LintRule::PHP102(r) => r.accepts(source, disabled),
            LintRule::PY001(r) => r.accepts(source, disabled),
            LintRule::PY010(r) => r.accepts(source, disabled),
            LintRule::PY020(r) => r.accepts(source, disabled),
            LintRule::PY021(r) => r.accepts(source, disabled),
            LintRule::PY030(r) => r.accepts(source, disabled),
            LintRule::PY031(r) => r.accepts(source, disabled),
            LintRule::PY040(r) => r.accepts(source, disabled),
            LintRule::PY050(r) => r.accepts(source, disabled),
            LintRule::PY060(r) => r.accepts(source, disabled),
            LintRule::PY070(r) => r.accepts(source, disabled),
            LintRule::R001(r) => r.accepts(source, disabled),
            LintRule::R010(r) => r.accepts(source, disabled),
            LintRule::R020(r) => r.accepts(source, disabled),
            LintRule::R021(r) => r.accepts(source, disabled),
            LintRule::R030(r) => r.accepts(source, disabled),
            LintRule::R040(r) => r.accepts(source, disabled),
            LintRule::R050(r) => r.accepts(source, disabled),
            LintRule::R060(r) => r.accepts(source, disabled),
            LintRule::R070(r) => r.accepts(source, disabled),
            LintRule::RUST001(r) => r.accepts(source, disabled),
            LintRule::RUST002(r) => r.accepts(source, disabled),
            LintRule::RUST003(r) => r.accepts(source, disabled),
            LintRule::RUST004(r) => r.accepts(source, disabled),
            LintRule::RUST005(r) => r.accepts(source, disabled),
            LintRule::RUST006(r) => r.accepts(source, disabled),
            LintRule::RUST007(r) => r.accepts(source, disabled),
            LintRule::RUST008(r) => r.accepts(source, disabled),
            LintRule::RUST009(r) => r.accepts(source, disabled),
            LintRule::RUST010(r) => r.accepts(source, disabled),
            LintRule::RUST011(r) => r.accepts(source, disabled),
            LintRule::RUST012(r) => r.accepts(source, disabled),
            LintRule::SQL001(r) => r.accepts(source, disabled),
            LintRule::SQL010(r) => r.accepts(source, disabled),
            LintRule::SQL020(r) => r.accepts(source, disabled),
            LintRule::SQL021(r) => r.accepts(source, disabled),
            LintRule::SQL030(r) => r.accepts(source, disabled),
            LintRule::SQL040(r) => r.accepts(source, disabled),
            LintRule::SQL050(r) => r.accepts(source, disabled),
            LintRule::SQL060(r) => r.accepts(source, disabled),
            LintRule::SQL070(r) => r.accepts(source, disabled),
            LintRule::TS001(r) => r.accepts(source, disabled),
            LintRule::TS010(r) => r.accepts(source, disabled),
            LintRule::TS020(r) => r.accepts(source, disabled),
            LintRule::TS030(r) => r.accepts(source, disabled),
            LintRule::TS040(r) => r.accepts(source, disabled),
            LintRule::TS050(r) => r.accepts(source, disabled),
            LintRule::TS060(r) => r.accepts(source, disabled),
            LintRule::TS070(r) => r.accepts(source, disabled),
            LintRule::TS080(r) => r.accepts(source, disabled),
            LintRule::TS090(r) => r.accepts(source, disabled),
            LintRule::CSS001(r) => r.accepts(source, disabled),
            LintRule::CSS004(r) => r.accepts(source, disabled),
            LintRule::CSS006(r) => r.accepts(source, disabled),
            LintRule::CSS007(r) => r.accepts(source, disabled),
            LintRule::CSS008(r) => r.accepts(source, disabled),
            LintRule::CSS009(r) => r.accepts(source, disabled),
            LintRule::CSS010(r) => r.accepts(source, disabled),
            LintRule::CSS003(r) => r.accepts(source, disabled),
            LintRule::CSS002(r) => r.accepts(source, disabled),
            LintRule::CSS005(r) => r.accepts(source, disabled),
            LintRule::MD005(r) => r.accepts(source, disabled),
            LintRule::MD016(r) => r.accepts(source, disabled),
            LintRule::MD017(r) => r.accepts(source, disabled),
            LintRule::MD018(r) => r.accepts(source, disabled),
            LintRule::MD019(r) => r.accepts(source, disabled),
            LintRule::MD020(r) => r.accepts(source, disabled),
            LintRule::MD021(r) => r.accepts(source, disabled),
            LintRule::MD022(r) => r.accepts(source, disabled),
            LintRule::MD024(r) => r.accepts(source, disabled),
            LintRule::MD006(r) => r.accepts(source, disabled),
            LintRule::MD011(r) => r.accepts(source, disabled),
            LintRule::MD030(r) => r.accepts(source, disabled),
            LintRule::MD031(r) => r.accepts(source, disabled),
            LintRule::MD032(r) => r.accepts(source, disabled),
            LintRule::MD033(r) => r.accepts(source, disabled),
        }
    }

    open spec fn findings(&self, file: Option<Seq<char>>, source: Seq<char>, disabled: Seq<Seq<char>>) -> Seq<ErrorView> {
        match self {
            LintRule::C001(r) => r.findings(file, source, disabled),
            LintRule::C010(r) => r.findings(file, source, disabled),
            LintRule::C020(r) => r.findings(file, source, disabled),
            LintRule::C030(r) => r.findings(file, source, disabled),
            LintRule::C040(r) => r.findings(file, source, disabled),
            LintRule::C050(r) => r.findings(file, source, disabled),
            LintRule::C060(r) => r.findings(file, source, disabled),
            LintRule::C090(r) => r.findings(file, source, disabled),
            LintRule::CPP001(r) => r.findings(file, source, disabled),
            LintRule::CPP010(r) => r.findings(file, source, disabled),
            LintRule::CPP020(r) => r.findings(file, source, disabled),
            LintRule::CPP021(r) => r.findings(file, source, disabled),
            LintRule::CPP030(r) => r.findings(file, source, disabled),
            LintRule::CPP040(r) => r.findings(file, source, disabled),
            LintRule::CPP050(r) => r.findings(file, source, disabled),
            LintRule::CPP060(r) => r.findings(file, source, disabled),
            LintRule::CPP090(r) => r.findings(file, source, disabled),
            LintRule::CS001(r) => r.findings(file, source, disabled),
            LintRule::CS010(r) => r.findings(file, source, disabled),
            LintRule::CS020(r) => r.findings(file, source, disabled),
            LintRule::CS030(r) => r.findings(file, source, disabled),
            LintRule::CS040(r) => r.findings(file, source, disabled),
            LintRule::CS050(r) => r.findings(file, source, disabled),
            LintRule::CS060(r) => r.findings(file, source, disabled),
            LintRule::CS090(r) => r.findings(file, source, disabled),
            LintRule::DART001(r) => r.findings(file, source, disabled),
            LintRule::DART010(r) => r.findings(file, source, disabled),
            LintRule::DART020(r) => r.findings(file, source, disabled),
            LintRule::DART030(r) => r.findings(file, source, disabled),
            LintRule::DART040(r) => r.findings(file, source, disabled),
            LintRule::DART050(r) => r.findings(file, source, disabled),
            LintRule::DART060(r) => r.findings(file, source, disabled),
            LintRule::DART090(r) => r.findings(file, source, disabled),
            LintRule::HTML001(r) => r.findings(file, source, disabled),
            LintRule::HTML002(r) => r.findings(file, source, disabled),
            LintRule::HTML003(r) => r.findings(file, source, disabled),
            LintRule::HTML004(r) => r.findings(file, source, disabled),
            LintRule::HTML005(r) => r.findings(file, source, disabled),
            LintRule::HTML006(r) => r.findings(file, source, disabled),
            LintRule::JAVA001(r) => r.findings(file, source, disabled),
            LintRule::JAVA010(r) => r.findings(file, source, disabled),
            LintRule::JAVA011(r) => r.findings(file, source, disabled),
            LintRule::JAVA020(r) => r.findings(file, source, disabled),
            LintRule::JAVA021(r) => r.findings(file, source, disabled),
            LintRule::JAVA030(r) => r.findings(file, source, disabled),
            LintRule::JAVA031(r) => r.findings(file, source, disabled),
            LintRule::JAVA040(r) => r.findings(file, source, disabled),
            LintRule::JAVA050(r) => r.findings(file, source, disabled),
            LintRule::JAVA060(r) => r.findings(file, source, disabled),
            LintRule::JAVA070(r) => r.findings(file, source, disabled),
            LintRule::JS001(r) => r.findings(file, source, disabled),
            LintRule::JS002(r) => r.findings(file, source, disabled),
            LintRule::JS003(r) => r.findings(file, source, disabled),
            LintRule::JS004(r) => r.findings(file, source, disabled),
            LintRule::JS005(r) => r.findings(file, source, disabled),
            LintRule::JS006(r) => r.findings(file, source, disabled),
            LintRule::JS007(r) => r.findings(file, source, disabled),
            LintRule::JS008(r) => r.findings(file, source, disabled),
            LintRule::ASM001(r) => r.findings(file, source, disabled),
            LintRule::ASM010(r) => r.findings(file, source, disabled),
            LintRule::ASM011(r) => r.findings(file, source, disabled),
            LintRule::ASM020(r) => r.findings(file, source, disabled),
            LintRule::ASM021(r) => r.findings(file, source, disabled),
            LintRule::ASM030(r) => r.findings(file, source, disabled),
            LintRule::ASM031(r) => r.findings(file, source, disabled),
            LintRule::ASM040(r) => r.findings(file, source, disabled),
            LintRule::ASM050(r) => r.findings(file, source, disabled),
            LintRule::ASM060(r) => r.findings(file, source, disabled),
            LintRule::ASM070(r) => r.findings(file, source, disabled),
            LintRule::ASM080(r) => r.findings(file, source, disabled),
            LintRule::ASM081(r) => r.findings(file, source, disabled),
            LintRule::PHP001(r) => r.findings(file, source, disabled),
            LintRule::PHP042(r) => r.findings(file, source, disabled),
            LintRule::PHP160(r) => r.findings(file, source, disabled),
            LintRule::PHP100(r) => r.findings(file, source, disabled),
            LintRule::PHP101(r) => r.findings(file, source, disabled),
            LintRule::PHP162(r) => r.findings(file, source, disabled),
            LintRule::PHP121(r) => r.findings(file, source, disabled),
            LintRule::PHP200(r) => r.findings(file, source, disabled),
            LintRule::PHP181(r) => r.findings(file, source, disabled),
            LintRule::PHP260(r) => r.findings(file, source, disabled),
            LintRule::PHP061(r) => r.findings(file, source, disabled),
            LintRule::PHP062(r) => r.findings(file, source, disabled),
            LintRule::PHP163(r) => r.findings(file, source, disabled),
            LintRule::PHP161(r) => r.findings(file, source, disabled),
            LintRule::PHP102(r) => r.findings(file, source, disabled),
            LintRule::PY001(r) => r.findings(file, source, disabled),
            LintRule::PY010(r) => r.findings(file, source, disabled),
            LintRule::PY020(r) => r.findings(file, source, disabled),
            LintRule::PY021(r) => r.findings(file, source, disabled),
            LintRule::PY030(r) => r.findings(file, source, disabled),
            LintRule::PY031(r) => r.findings(file, source, disabled),
            LintRule::PY040(r) => r.findings(file, source, disabled),
            LintRule::PY050(r) => r.findings(file, source, disabled),
            LintRule::PY060(r) => r.findings(file, source, disabled),
            LintRule::PY070(r) => r.findings(file, source, disabled),
            LintRule::R001(r) => r.findings(file, source, disabled),
            LintRule::R010(r) => r.findings(file, source, disabled),
            LintRule::R020(r) => r.findings(file, source, disabled),
            LintRule::R021(r) => r.findings(file, source, disabled),
            LintRule::R030(r) => r.findings(file, source, disabled),
            LintRule::R040(r) => r.findings(file, source, disabled),
            LintRule::R050(r) => r.findings(file, source, disabled),
            LintRule::R060(r) => r.findings(file, source, disabled),
            LintRule::R070(r) => r.findings(file, source, disabled),
            LintRule::RUST001(r) => r.findings(file, source, disabled),
            LintRule::RUST002(r) => r.findings(file, source, disabled),
            LintRule::RUST003(r) => r.findings(file, source, disabled),
            LintRule::RUST004(r) => r.findings(file, source, disabled),
            LintRule::RUST005(r) => r.findings(file, source, disabled),
            LintRule::RUST006(r) => r.findings(file, source, disabled),
            LintRule::RUST007(r) => r.findings(file, source, disabled),
            LintRule::RUST008(r) => r.findings(file, source, disabled),
            LintRule::RUST009(r) => r.findings(file, source, disabled),
            LintRule::RUST010(r) => r.findings(file, source, disabled),
            LintRule::RUST011(r) => r.findings(file, source, disabled),
            LintRule::RUST012(r) => r.findings(file, source, disabled),
            LintRule::SQL001(r) => r.findings(file, source, disabled),
            LintRule::SQL010(r) => r.findings(file, source, disabled),
            LintRule::SQL020(r) => r.findings(file, source, disabled),
            LintRule::SQL021(r) => r.findings(file, source, disabled),
            LintRule::SQL030(r) => r.findings(file, source, disabled),
            LintRule::SQL040(r) => r.findings(file, source, disabled),
            LintRule::SQL050(r) => r.findings(file, source, disabled),
            LintRule::SQL060(r) => r.findings(file, source, disabled),
            LintRule::SQL070(r) => r.findings(file, source, disabled),
            LintRule::TS001(r) => r.findings(file, source, disabled),
            LintRule::TS010(r) => r.findings(file, source, disabled),
            LintRule::TS020(r) => r.findings(file, source, disabled),
            LintRule::TS030(r) => r.findings(file, source, disabled),
            LintRule::TS040(r) => r.findings(file, source, disabled),
            LintRule::TS050(r) => r.findings(file, source, disabled),
            LintRule::TS060(r) => r.findings(file, source, disabled),
            LintRule::TS070(r) => r.findings(file, source, disabled),
            LintRule::TS080(r) => r.findings(file, source, disabled),
            LintRule::TS090(r) => r.findings(file, source, disabled),
            LintRule::CSS001(r) => r.findings(file, source, disabled),
            LintRule::CSS004(r) => r.findings(file, source, disabled),
            LintRule::CSS006(r) => r.findings(file, source, disabled),
            LintRule::CSS007(r) => r.findings(file, source, disabled),
            LintRule::CSS008(r) => r.findings(file, source, disabled),
            LintRule::CSS009(r) => r.findings(file, source, disabled),
            LintRule::CSS010(r) => r.findings(file, source, disabled),
            LintRule::CSS003(r) => r.findings(file, source, disabled),
            LintRule::CSS002(r) => r.findings(file, source, disabled),
            LintRule::CSS005(r) => r.findings(file, source, disabled),
            LintRule::MD005(r) => r.findings(file, source, disabled),
            LintRule::MD016(r) => r.findings(file, source, disabled),
            LintRule::MD017(r) => r.findings(file, source, disabled),
            LintRule::MD018(r) => r.findings(file, source, disabled),
            LintRule::MD019(r) => r.findings(file, source, disabled),
            LintRule::MD020(r) => r.findings(file, source, disabled),
            LintRule::MD021(r) => r.findings(file, source, disabled),
            LintRule::MD022(r) => r.findings(file, source, disabled),
            LintRule::MD024(r) => r.findings(file, source, disabled),
            LintRule::MD006(r) => r.findings(file, source, disabled),
            LintRule::MD011(r) => r.findings(file, source, disabled),
            LintRule::MD030(r) => r.findings(file, source, disabled),
            LintRule::MD031(r) => r.findings(file, source, disabled),
            LintRule::MD032(r) => r.findings(file, source, disabled),
            LintRule::MD033(r) => r.findings(file, source, disabled),
        }
    }

    fn id(&self) -> (r: &'static str) {
        match self {
            LintRule::C001(r) => r.id(),
            LintRule::C010(r) => r.id(),
            LintRule::C020(r) => r.id(),
            LintRule::C030(r) => r.id(),
            LintRule::C040(r) => r.id(),
            LintRule::C050(r) => r.id(),
            LintRule::C060(r) => r.id(),
            LintRule::C090(r) => r.id(),
            LintRule::CPP001(r) => r.id(),
            LintRule::CPP010(r) => r.id(),
            LintRule::CPP020(r) => r.id(),
            LintRule::CPP021(r) => r.id(),
            LintRule::CPP030(r) => r.id(),
            LintRule::CPP040(r) => r.id(),
            LintRule::CPP050(r) => r.id(),
            LintRule::CPP060(r) => r.id(),
            LintRule::CPP090(r) => r.id(),
            LintRule::CS001(r) => r.id(),
            LintRule::CS010(r) => r.id(),
            LintRule::CS020(r) => r.id(),
            LintRule::CS030(r) => r.id(),
            LintRule::CS040(r) => r.id(),
            LintRule::CS050(r) => r.id(),
            LintRule::CS060(r) => r.id(),
            LintRule::CS090(r) => r.id(),
            LintRule::DART001(r) => r.id(),
            LintRule::DART010(r) => r.id(),
            LintRule::DART020(r) => r.id(),
            LintRule::DART030(r) => r.id(),
            LintRule::DART040(r) => r.id(),
            LintRule::DART050(r) => r.id(),
            LintRule::DART060(r) => r.id(),
            LintRule::DART090(r) => r.id(),
            LintRule::HTML001(r) => r.id(),
            LintRule::HTML002(r) => r.id(),
            LintRule::HTML003(r) => r.id(),
            LintRule::HTML004(r) => r.id(),
            LintRule::HTML005(r) => r.id(),
            LintRule::HTML006(r) => r.id(),
            LintRule::JAVA001(r) => r.id(),
            LintRule::JAVA010(r) => r.id(),
            LintRule::JAVA011(r) => r.id(),
            LintRule::JAVA020(r) => r.id(),
            LintRule::JAVA021(r) => r.id(),
            LintRule::JAVA030(r) => r.id(),
            LintRule::JAVA031(r) => r.id(),
            LintRule::JAVA040(r) => r.id(),
            LintRule::JAVA050(r) => r.id(),
            LintRule::JAVA060(r) => r.id(),
            LintRule::JAVA070(r) => r.id(),
            LintRule::JS001(r) => r.id(),
            LintRule::JS002(r) => r.id(),
            LintRule::JS003(r) => r.id(),
            LintRule::JS004(r) => r.id(),
            LintRule::JS005(r) => r.id(),
            LintRule::JS006(r) => r.id(),
            LintRule::JS007(r) => r.id(),
            LintRule::JS008(r) => r.id(),
            LintRule::ASM001(r) => r.id(),
            LintRule::ASM010(r) => r.id(),
            LintRule::ASM011(r) => r.id(),
            LintRule::ASM020(r) => r.id(),
            LintRule::ASM021(r) => r.id(),
            LintRule::ASM030(r) => r.id(),
            LintRule::ASM031(r) => r.id(),
            LintRule::ASM040(r) => r.id(),
            LintRule::ASM050(r) => r.id(),
            LintRule::ASM060(r) => r.id(),
            LintRule::ASM070(r) => r.id(),
            LintRule::ASM080(r) => r.id(),
            LintRule::ASM081(r) => r.id(),
            LintRule::PHP001(r) => r.id(),
            LintRule::PHP042(r) => r.id(),
            LintRule::PHP160(r) => r.id(),
            LintRule::PHP100(r) => r.id(),
            LintRule::PHP101(r) => r.id(),
            LintRule::PHP162(r) => r.id(),
            LintRule::PHP121(r) => r.id(),
            LintRule::PHP200(r) => r.id(),
            LintRule::PHP181(r) => r.id(),
            LintRule::PHP260(r) => r.id(),
            LintRule::PHP061(r) => r.id(),
            LintRule::PHP062(r) => r.id(),
            LintRule::PHP163(r) => r.id(),
            LintRule::PHP161(r) => r.id(),
            LintRule::PHP102(r) => r.id(),
            LintRule::PY001(r) => r.id(),
            LintRule::PY010(r) => r.id(),
            LintRule::PY020(r) => r.id(),
            LintRule::PY021(r) => r.id(),
            LintRule::PY030(r) => r.id(),
            LintRule::PY031(r) => r.id(),
            LintRule::PY040(r) => r.id(),
            LintRule::PY050(r) => r.id(),
            LintRule::PY060(r) => r.id(),
            LintRule::PY070(r) => r.id(),
            LintRule::R001(r) => r.id(),
            LintRule::R010(r) => r.id(),
            LintRule::R020(r) => r.id(),
            LintRule::R021(r) => r.id(),
            LintRule::R030(r) => r.id(),
            LintRule::R040(r) => r.id(),
            LintRule::R050(r) => r.id(),
            LintRule::R060(r) => r.id(),
            LintRule::R070(r) => r.id(),
            LintRule::RUST001(r) => r.id(),
            LintRule::RUST002(r) => r.id(),
            LintRule::RUST003(r) => r.id(),
            LintRule::RUST004(r) => r.id(),
            LintRule::RUST005(r) => r.id(),
            LintRule::RUST006(r) => r.id(),
            LintRule::RUST007(r) => r.id(),
            LintRule::RUST008(r) => r.id(),
            LintRule::RUST009(r) => r.id(),
            LintRule::RUST010(r) => r.id(),
            LintRule::RUST011(r) => r.id(),
            LintRule::RUST012(r) => r.id(),
            LintRule::SQL001(r) => r.id(),
            LintRule::SQL010(r) => r.id(),
            LintRule::SQL020(r) => r.id(),
            LintRule::SQL021(r) => r.id(),
            LintRule::SQL030(r) => r.id(),
            LintRule::SQL040(r) => r.id(),
            LintRule::SQL050(r) => r.id(),
            LintRule::SQL060(r) => r.id(),
            LintRule::SQL070(r) => r.id(),
            LintRule::TS001(r) => r.id(),
            LintRule::TS010(r) => r.id(),
            LintRule::TS020(r) => r.id(),
            LintRule::TS030(r) => r.id(),
            LintRule::TS040(r) => r.id(),
            LintRule::TS050(r) => r.id(),
            LintRule::TS060(r) => r.id(),
            LintRule::TS070(r) => r.id(),
            LintRule::TS080(r) => r.id(),
            LintRule::TS090(r) => r.id(),
            LintRule::CSS001(r) => r.id(),
            LintRule::CSS004(r) => r.id(),
            LintRule::CSS006(r) => r.id(),
            LintRule::CSS007(r) => r.id(),
            LintRule::CSS008(r) => r.id(),
            LintRule::CSS009(r) => r.id(),
            LintRule::CSS010(r) => r.id(),
            LintRule::CSS003(r) => r.id(),
            LintRule::CSS002(r) => r.id(),
            LintRule::CSS005(r) => r.id(),
            LintRule::MD005(r) => r.id(),
            LintRule::MD016(r) => r.id(),
            LintRule::MD017(r) => r.id(),
            LintRule::MD018(r) => r.id(),
            LintRule::MD019(r) => r.id(),
            LintRule::MD020(r) => r.id(),
            LintRule::MD021(r) => r.id(),
            LintRule::MD022(r) => r.id(),
            LintRule::MD024(r) => r.id(),
            LintRule::MD006(r) => r.id(),
            LintRule::MD011(r) => r.id(),
            LintRule::MD030(r) => r.id(),
            LintRule::MD031(r) => r.id(),
            LintRule::MD032(r) => r.id(),
            LintRule::MD033(r) => r.id(),
        }
    }

    fn severity(&self) -> (s: Severity) {
        match self {
            LintRule::C001(r) => r.severity(),
            LintRule::C010(r) => r.severity(),
            LintRule::C020(r) => r.severity(),
            LintRule::C030(r) => r.severity(),
            LintRule::C040(r) => r.severity(),
            LintRule::C050(r) => r.severity(),
            LintRule::C060(r) => r.severity(),
            LintRule::C090(r) => r.severity(),
            LintRule::CPP001(r) => r.severity(),
            LintRule::CPP010(r) => r.severity(),
            LintRule::CPP020(r) => r.severity(),
            LintRule::CPP021(r) => r.severity(),
            LintRule::CPP030(r) => r.severity(),
            LintRule::CPP040(r) => r.severity(),
            LintRule::CPP050(r) => r.severity(),
            LintRule::CPP060(r) => r.severity(),
            LintRule::CPP090(r) => r.severity(),
            LintRule::CS001(r) => r.severity(),
            LintRule::CS010(r) => r.severity(),
            LintRule::CS020(r) => r.severity(),
            LintRule::CS030(r) => r.severity(),
            LintRule::CS040(r) => r.severity(),
            LintRule::CS050(r) => r.severity(),
            LintRule::CS060(r) => r.severity(),
            LintRule::CS090(r) => r.severity(),
            LintRule::DART001(r) => r.severity(),
            LintRule::DART010(r) => r.severity(),
            LintRule::DART020(r) => r.severity(),
            LintRule::DART030(r) => r.severity(),
            LintRule::DART040(r) => r.severity(),
            LintRule::DART050(r) => r.severity(),
            LintRule::DART060(r) => r.severity(),
            LintRule::DART090(r) => r.severity(),
            LintRule::HTML001(r) => r.severity(),
            LintRule::HTML002(r) => r.severity(),
            LintRule::HTML003(r) => r.severity(),
            LintRule::HTML004(r) => r.severity(),
            LintRule::HTML005(r) => r.severity(),
            LintRule::HTML006(r) => r.severity(),
            LintRule::JAVA001(r) => r.severity(),
            LintRule::JAVA010(r) => r.severity(),
            LintRule::JAVA011(r) => r.severity(),
            LintRule::JAVA020(r) => r.severity(),
            LintRule::JAVA021(r) => r.severity(),
            LintRule::JAVA030(r) => r.severity(),
            LintRule::JAVA031(r) => r.severity(),
            LintRule::JAVA040(r) => r.severity(),
            LintRule::JAVA050(r) => r.severity(),
            LintRule::JAVA060(r) => r.severity(),
            LintRule::JAVA070(r) => r.severity(),
            LintRule::JS001(r) => r.severity(),
            LintRule::JS002(r) => r.severity(),
            LintRule::JS003(r) => r.severity(),
            LintRule::JS004(r) => r.severity(),
            LintRule::JS005(r) => r.severity(),
            LintRule::JS006(r) => r.severity(),
            LintRule::JS007(r) => r.severity(),
            LintRule::JS008(r) => r.severity(),
            LintRule::ASM001(r) => r.severity(),
            LintRule::ASM010(r) => r.severity(),
            LintRule::ASM011(r) => r.severity(),
            LintRule::ASM020(r) => r.severity(),
            LintRule::ASM021(r) => r.severity(),
            LintRule::ASM030(r) => r.severity(),
            LintRule::ASM031(r) => r.severity(),
            LintRule::ASM040(r) => r.severity(),
            LintRule::ASM050(r) => r.severity(),
            LintRule::ASM060(r) => r.severity(),
            LintRule::ASM070(r) => r.severity(),
            LintRule::ASM080(r) => r.severity(),
            LintRule::ASM081(r) => r.severity(),
            LintRule::PHP001(r) => r.severity(),
            LintRule::PHP042(r) => r.severity(),
            LintRule::PHP160(r) => r.severity(),
            LintRule::PHP100(r) => r.severity(),
            LintRule::PHP101(r) => r.severity(),
            LintRule::PHP162(r) => r.severity(),
            LintRule::PHP121(r) => r.severity(),
            LintRule::PHP200(r) => r.severity(),
            LintRule::PHP181(r) => r.severity(),
            LintRule::PHP260(r) => r.severity(),
            LintRule::PHP061(r) => r.severity(),
            LintRule::PHP062(r) => r.severity(),
            LintRule::PHP163(r) => r.severity(),
            LintRule::PHP161(r) => r.severity(),
            LintRule::PHP102(r) => r.severity(),
            LintRule::PY001(r) => r.severity(),
            LintRule::PY010(r) => r.severity(),
            LintRule::PY020(r) => r.severity(),
            LintRule::PY021(r) => r.severity(),
            LintRule::PY030(r) => r.severity(),
            LintRule::PY031(r) => r.severity(),
            LintRule::PY040(r) => r.severity(),
            LintRule::PY050(r) => r.severity(),
            LintRule::PY060(r) => r.severity(),
            LintRule::PY070(r) => r.severity(),
            LintRule::R001(r) => r.severity(),
            LintRule::R010(r) => r.severity(),
            LintRule::R020(r) => r.severity(),
            LintRule::R021(r) => r.severity(),
            LintRule::R030(r) => r.severity(),
            LintRule::R040(r) => r.severity(),
            LintRule::R050(r) => r.severity(),
            LintRule::R060(r) => r.severity(),
            LintRule::R070(r) => r.severity(),
            LintRule::RUST001(r) => r.severity(),
            LintRule::RUST002(r) => r.severity(),
            LintRule::RUST003(r) => r.severity(),
            LintRule::RUST004(r) => r.severity(),
            LintRule::RUST005(r) => r.severity(),
            LintRule::RUST006(r) => r.severity(),
            LintRule::RUST007(r) => r.severity(),
            LintRule::RUST008(r) => r.severity(),
            LintRule::RUST009(r) => r.severity(),
            LintRule::RUST010(r) => r.severity(),
            LintRule::RUST011(r) => r.severity(),
            LintRule::RUST012(r) => r.severity(),
            LintRule::SQL001(r) => r.severity(),
            LintRule::SQL010(r) => r.severity(),
            LintRule::SQL020(r) => r.severity(),
            LintRule::SQL021(r) => r.severity(),
            LintRule::SQL030(r) => r.severity(),
            LintRule::SQL040(r) => r.severity(),
            LintRule::SQL050(r) => r.severity(),
            LintRule::SQL060(r) => r.severity(),
            LintRule::SQL070(r) => r.severity(),
            LintRule::TS001(r) => r.severity(),
            LintRule::TS010(r) => r.severity(),
            LintRule::TS020(r) => r.severity(),
            LintRule::TS030(r) => r.severity(),
            LintRule::TS040(r) => r.severity(),
            LintRule::TS050(r) => r.severity(),
            LintRule::TS060(r) => r.severity(),
            LintRule::TS070(r) => r.severity(),
            LintRule::TS080(r) => r.severity(),
            LintRule::TS090(r) => r.severity(),
            LintRule::CSS001(r) => r.severity(),
            LintRule::CSS004(r) => r.severity(),
            LintRule::CSS006(r) => r.severity(),
            LintRule::CSS007(r) => r.severity(),
            LintRule::CSS008(r) => r.severity(),
            LintRule::CSS009(r) => r.severity(),
            LintRule::CSS010(r) => r.severity(),
            LintRule::CSS003(r) => r.severity(),
            LintRule::CSS002(r) => r.severity(),
            LintRule::CSS005(r) => r.severity(),
            LintRule::MD005(r) => r.severity(),
            LintRule::MD016(r) => r.severity(),
            LintRule::MD017(r) => r.severity(),
            LintRule::MD018(r) => r.severity(),
            LintRule::MD019(r) => r.severity(),
            LintRule::MD020(r) => r.severity(),
            LintRule::MD021(r) => r.severity(),
            LintRule::MD022(r) => r.severity(),
            LintRule::MD024(r) => r.severity(),
            LintRule::MD006(r) => r.severity(),
            LintRule::MD011(r) => r.severity(),
            LintRule::MD030(r) => r.severity(),
            LintRule::MD031(r) => r.severity(),
            LintRule::MD032(r) => r.severity(),
            LintRule::MD033(r) => r.severity(),
        }
    }

    fn admits(&self, source: &str, config: &LintConfig) -> (b: bool) {
        match self {
            LintRule::C001(r) => r.admits(source, config),
            LintRule::C010(r) => r.admits(source, config),
            LintRule::C020(r) => r.admits(source, config),
            LintRule::C030(r) => r.admits(source, config),
            LintRule::C040(r) => r.admits(source, config),
            LintRule::C050(r) => r.admits(source, config),
            LintRule::C060(r) => r.admits(source, config),
            LintRule::C090(r) => r.admits(source, config),
            LintRule::CPP001(r) => r.admits(source, config),
            LintRule::CPP010(r) => r.admits(source, config),
            LintRule::CPP020(r) => r.admits(source, config),
            LintRule::CPP021(r) => r.admits(source, config),
            LintRule::CPP030(r) => r.admits(source, config),
            LintRule::CPP040(r) => r.admits(source, config),
            LintRule::CPP050(r) => r.admits(source, config),
            LintRule::CPP060(r) => r.admits(source, config),
            LintRule::CPP090(r) => r.admits(source, config),
            LintRule::CS001(r) => r.admits(source, config),
            LintRule::CS010(r) => r.admits(source, config),
            LintRule::CS020(r) => r.admits(source, config),
            LintRule::CS030(r) => r.admits(source, config),
            LintRule::CS040(r) => r.admits(source, config),
            LintRule::CS050(r) => r.admits(source, config),
            LintRule::CS060(r) => r.admits(source, config),
            LintRule::CS090(r) => r.admits(source, config),
            LintRule::DART001(r) => r.admits(source, config),
            LintRule::DART010(r) => r.admits(source, config),
            LintRule::DART020(r) => r.admits(source, config),
            LintRule::DART030(r) => r.admits(source, config),
            LintRule::DART040(r) => r.admits(source, config),
            LintRule::DART050(r) => r.admits(source, config),
            LintRule::DART060(r) => r.admits(source, config),
            LintRule::DART090(r) => r.admits(source, config),
            LintRule::HTML001(r) => r.admits(source, config),
            LintRule::HTML002(r) => r.admits(source, config),
            LintRule::HTML003(r) => r.admits(source, config),
            LintRule::HTML004(r) => r.admits(source, config),
            LintRule::HTML005(r) => r.admits(source, config),
            LintRule::HTML006(r) => r.admits(source, config),
            LintRule::JAVA001(r) => r.admits(source, config),
            LintRule::JAVA010(r) => r.admits(source, config),
            LintRule::JAVA011(r) => r.admits(source, config),
            LintRule::JAVA020(r) => r.admits(source, config),
            LintRule::JAVA021(r) => r.admits(source, config),
            LintRule::JAVA030(r) => r.admits(source, config),
            LintRule::JAVA031(r) => r.admits(source, config),
            LintRule::JAVA040(r) => r.admits(source, config),
            LintRule::JAVA050(r) => r.admits(source, config),
            LintRule::JAVA060(r) => r.admits(source, config),
            LintRule::JAVA070(r) => r.admits(source, config),
            LintRule::JS001(r) => r.admits(source, config),
            LintRule::JS002(r) => r.admits(source, config),
            LintRule::JS003(r) => r.admits(source, config),
            LintRule::JS004(r) => r.admits(source, config),
            LintRule::JS005(r) => r.admits(source, config),
            LintRule::JS006(r) => r.admits(source, config),
            LintRule::JS007(r) => r.admits(source, config),
            LintRule::JS008(r) => r.admits(source, config),
            LintRule::ASM001(r) => r.admits(source, config),
            LintRule::ASM010(r) => r.admits(source, config),
            LintRule::ASM011(r) => r.admits(source, config),
            LintRule::ASM020(r) => r.admits(source, config),
            LintRule::ASM021(r) => r.admits(source, config),
            LintRule::ASM030(r) => r.admits(source, config),
            LintRule::ASM031(r) => r.admits(source, config),
            LintRule::ASM040(r) => r.admits(source, config),
            LintRule::ASM050(r) => r.admits(source, config),
            LintRule::ASM060(r) => r.admits(source, config),
            LintRule::ASM070(r) => r.admits(source, config),
            LintRule::ASM080(r) => r.admits(source, config),
            LintRule::ASM081(r) => r.admits(source, config),
            LintRule::PHP001(r) => r.admits(source, config),
            LintRule::PHP042(r) => r.admits(source, config),
            LintRule::PHP160(r) => r.admits(source, config),
            LintRule::PHP100(r) => r.admits(source, config),
            LintRule::PHP101(r) => r.admits(source, config),
            LintRule::PHP162(r) => r.admits(source, config),
            LintRule::PHP121(r) => r.admits(source, config),
            LintRule::PHP200(r) => r.admits(source, config),
            LintRule::PHP181(r) => r.admits(source, config),
            LintRule::PHP260(r) => r.admits(source, config),
            LintRule::PHP061(r) => r.admits(source, config),
            LintRule::PHP062(r) => r.admits(source, config),
            LintRule::PHP163(r) => r.admits(source, config),
            LintRule::PHP161(r) => r.admits(source, config),
            LintRule::PHP102(r) => r.admits(source, config),
            LintRule::PY001(r) => r.admits(source, config),
            LintRule::PY010(r) => r.admits(source, config),
            LintRule::PY020(r) => r.admits(source, config),
            LintRule::PY021(r) => r.admits(source, config),
            LintRule::PY030(r) => r.admits(source, config),
            LintRule::PY031(r) => r.admits(source, config),
            LintRule::PY040(r) => r.admits(source, config),
            LintRule::PY050(r) => r.admits(source, config),
            LintRule::PY060(r) => r.admits(source, config),
            LintRule::PY070(r) => r.admits(source, config),
            LintRule::R001(r) => r.admits(source, config),
            LintRule::R010(r) => r.admits(source, config),
            LintRule::R020(r) => r.admits(source, config),
            LintRule::R021(r) => r.admits(source, config),
            LintRule::R030(r) => r.admits(source, config),
            LintRule::R040(r) => r.admits(source, config),
            LintRule::R050(r) => r.admits(source, config),
            LintRule::R060(r) => r.admits(source, config),
            LintRule::R070(r) => r.admits(source, config),
            LintRule::RUST001(r) => r.admits(source, config),
            LintRule::RUST002(r) => r.admits(source, config),
            LintRule::RUST003(r) => r.admits(source, config),
            LintRule::RUST004(r) => r.admits(source, config),
            LintRule::RUST005(r) => r.admits(source, config),
            LintRule::RUST006(r) => r.admits(source, config),
            LintRule::RUST007(r) => r.admits(source, config),
            LintRule::RUST008(r) => r.admits(source, config),
            LintRule::RUST009(r) => r.admits(source, config),
            LintRule::RUST010(r) => r.admits(source, config),
            LintRule::RUST011(r) => r.admits(source, config),
            LintRule::RUST012(r) => r.admits(source, config),
            LintRule::SQL001(r) => r.admits(source, config),
            LintRule::SQL010(r) => r.admits(source, config),
            LintRule::SQL020(r) => r.admits(source, config),
            LintRule::SQL021(r) => r.admits(source, config),
            LintRule::SQL030(r) => r.admits(source, config),
            LintRule::SQL040(r) => r.admits(source, config),
            LintRule::SQL050(r) => r.admits(source, config),
            LintRule::SQL060(r) => r.admits(source, config),
            LintRule::SQL070(r) => r.admits(source, config),
            LintRule::TS001(r) => r.admits(source, config),
            LintRule::TS010(r) => r.admits(source, config),
            LintRule::TS020(r) => r.admits(source, config),
            LintRule::TS030(r) => r.admits(source, config),
            LintRule::TS040(r) => r.admits(source, config),
            LintRule::TS050(r) => r.admits(source, config),
            LintRule::TS060(r) => r.admits(source, config),
            LintRule::TS070(r) => r.admits(source, config),
            LintRule::TS080(r) => r.admits(source, config),
            LintRule::TS090(r) => r.admits(source, config),
            LintRule::CSS001(r) => r.admits(source, config),
            LintRule::CSS004(r) => r.admits(source, config),
            LintRule::CSS006(r) => r.admits(source, config),
            LintRule::CSS007(r) => r.admits(source, config),
            LintRule::CSS008(r) => r.admits(source, config),
            LintRule::CSS009(r) => r.admits(source, config),
            LintRule::CSS010(r) => r.admits(source, config),
            LintRule::CSS003(r) => r.admits(source, config),
            LintRule::CSS002(r) => r.admits(source, config),
            LintRule::CSS005(r) => r.admits(source, config),
            LintRule::MD005(r) => r.admits(source, config),
            LintRule::MD016(r) => r.admits(source, config),
            LintRule::MD017(r) => r.admits(source, config),
            LintRule::MD018(r) => r.admits(source, config),
            LintRule::MD019(r) => r.admits(source, config),
            LintRule::MD020(r) => r.admits(source, config),
            LintRule::MD021(r) => r.admits(source, config),
            LintRule::MD022(r) => r.admits(source, config),
            LintRule::MD024(r) => r.admits(source, config),
            LintRule::MD006(r) => r.admits(source, config),
            LintRule::MD011(r) => r.admits(source, config),
            LintRule::MD030(r) => r.admits(source, config),
            LintRule::MD031(r) => r.admits(source, config),
            LintRule::MD032(r) => r.admits(source, config),
            LintRule::MD033(r) => r.admits(source, config),
        }
    }

    fn check(&self, file: Option<&str>, source: &str, report: &mut LintReport, config: &LintConfig) {
        match self {
            LintRule::C001(r) => r.check(file, source, report, config),
            LintRule::C010(r) => r.check(file, source, report, config),
            LintRule::C020(r) => r.check(file, source, report, config),
            LintRule::C030(r) => r.check(file, source, report, config),
            LintRule::C040(r) => r.check(file, source, report, config),
            LintRule::C050(r) => r.check(file, source, report, config),
            LintRule::C060(r) => r.check(file, source, report, config),
            LintRule::C090(r) => r.check(file, source, report, config),
            LintRule::CPP001(r) => r.check(file, source, report, config),
            LintRule::CPP010(r) => r.check(file, source, report, config),
            LintRule::CPP020(r) => r.check(file, source, report, config),
            LintRule::CPP021(r) => r.check(file, source, report, config),
            LintRule::CPP030(r) => r.check(file, source, report, config),
            LintRule::CPP040(r) => r.check(file, source, report, config),
            LintRule::CPP050(r) => r.check(file, source, report, config),
            LintRule::CPP060(r) => r.check(file, source, report, config),
            LintRule::CPP090(r) => r.check(file, source, report, config),
            LintRule::CS001(r) => r.check(file, source, report, config),
            LintRule::CS010(r) => r.check(file, source, report, config),
            LintRule::CS020(r) => r.check(file, source, report, config),
            LintRule::CS030(r) => r.check(file, source, report, config),
            LintRule::CS040(r) => r.check(file, source, report, config),
            LintRule::CS050(r) => r.check(file, source, report, config),
            LintRule::CS060(r) => r.check(file, source, report, config),
            LintRule::CS090(r) => r.check(file, source, report, config),
            LintRule::DART001(r) => r.check(file, source, report, config),
            LintRule::DART010(r) => r.check(file, source, report, config),
            LintRule::DART020(r) => r.check(file, source, report, config),
            LintRule::DART030(r) => r.check(file, source, report, config),
            LintRule::DART040(r) => r.check(file, source, report, config),
            LintRule::DART050(r) => r.check(file, source, report, config),
            LintRule::DART060(r) => r.check(file, source, report, config),
            LintRule::DART090(r) => r.check(file, source, report, config),
            LintRule::HTML001(r) => r.check(file, source, report, config),
            LintRule::HTML002(r) => r.check(file, source, report, config),
            LintRule::HTML003(r) => r.check(file, source, report, config),
            LintRule::HTML004(r) => r.check(file, source, report, config),
            LintRule::HTML005(r) => r.check(file, source, report, config),
            LintRule::HTML006(r) => r.check(file, source, report, config),
            LintRule::JAVA001(r) => r.check(file, source, report, config),
            LintRule::JAVA010(r) => r.check(file, source, report, config),
            LintRule::JAVA011(r) => r.check(file, source, report, config),
            LintRule::JAVA020(r) => r.check(file, source, report, config),
            LintRule::JAVA021(r) => r.check(file, source, report, config),
            LintRule::JAVA030(r) => r.check(file, source, report, config),
            LintRule::JAVA031(r) => r.check(file, source, report, config),
            LintRule::JAVA040(r) => r.check(file, source, report, config),
            LintRule::JAVA050(r) => r.check(file, source, report, config),
            LintRule::JAVA060(r) => r.check(file, source, report, config),
            LintRule::JAVA070(r) => r.check(file, source, report, config),
            LintRule::JS001(r) => r.check(file, source, report, config),
            LintRule::JS002(r) => r.check(file, source, report, config),
            LintRule::JS003(r) => r.check(file, source, report, config),
            LintRule::JS004(r) => r.check(file, source, report, config),
            LintRule::JS005(r) => r.check(file, source, report, config),
            LintRule::JS006(r) => r.check(file, source, report, config),
            LintRule::JS007(r) => r.check(file, source, report, config),
            LintRule::JS008(r) => r.check(file, source, report, config),
            LintRule::ASM001(r) => r.check(file, source, report, config),
            LintRule::ASM010(r) => r.check(file, source, report, config),
            LintRule::ASM011(r) => r.check(file, source, report, config),
            LintRule::ASM020(r) => r.check(file, source, report, config),
            LintRule::ASM021(r) => r.check(file, source, report, config),
            LintRule::ASM030(r) => r.check(file, source, report, config),
            LintRule::ASM031(r) => r.check(file, source, report, config),
            LintRule::ASM040(r) => r.check(file, source, report, config),
            LintRule::ASM050(r) => r.check(file, source, report, config),
            LintRule::ASM060(r) => r.check(file, source, report, config),
            LintRule::ASM070(r) => r.check(file, source, report, config),
            LintRule::ASM080(r) => r.check(file, source, report, config),
            LintRule::ASM081(r) => r.check(file, source, report, config),
            LintRule::PHP001(r) => r.check(file, source, report, config),
            LintRule::PHP042(r) => r.check(file, source, report, config),
            LintRule::PHP160(r) => r.check(file, source, report, config),
            LintRule::PHP100(r) => r.check(file, source, report, config),
            LintRule::PHP101(r) => r.check(file, source, report, config),
            LintRule::PHP162(r) => r.check(file, source, report, config),
            LintRule::PHP121(r) => r.check(file, source, report, config),
            LintRule::PHP200(r) => r.check(file, source, report, config),
            LintRule::PHP181(r) => r.check(file, source, report, config),
            LintRule::PHP260(r) => r.check(file, source, report, config),
            LintRule::PHP061(r) => r.check(file, source, report, config),
            LintRule::PHP062(r) => r.check(file, source, report, config),
            LintRule::PHP163(r) => r.check(file, source, report, config),
            LintRule::PHP161(r) => r.check(file, source, report, config),
            LintRule::PHP102(r) => r.check(file, source, report, config),
            LintRule::PY001(r) => r.check(file, source, report, config),
            LintRule::PY010(r) => r.check(file, source, report, config),
            LintRule::PY020(r) => r.check(file, source, report, config),
            LintRule::PY021(r) => r.check(file, source, report, config),
            LintRule::PY030(r) => r.check(file, source, report, config),
            LintRule::PY031(r) => r.check(file, source, report, config),
            LintRule::PY040(r) => r.check(file, source, report, config),
            LintRule::PY050(r) => r.check(file, source, report, config),
            LintRule::PY060(r) => r.check(file, source, report, config),
            LintRule::PY070(r) => r.check(file, source, report, config),
            LintRule::R001(r) => r.check(file, source, report, config),
            LintRule::R010(r) => r.check(file, source, report, config),
            LintRule::R020(r) => r.check(file, source, report, config),
            LintRule::R021(r) => r.check(file, source, report, config),
            LintRule::R030(r) => r.check(file, source, report, config),
            LintRule::R040(r) => r.check(file, source, report, config),
            LintRule::R050(r) => r.check(file, source, report, config),
            LintRule::R060(r) => r.check(file, source, report, config),
            LintRule::R070(r) => r.check(file, source, report, config),
            LintRule::RUST001(r) => r.check(file, source, report, config),
            LintRule::RUST002(r) => r.check(file, source, report, config),
            LintRule::RUST003(r) => r.check(file, source, report, config),
            LintRule::RUST004(r) => r.check(file, source, report, config),
            LintRule::RUST005(r) => r.check(file, source, report, config),
            LintRule::RUST006(r) => r.check(file, source, report, config),
            LintRule::RUST007(r) => r.check(file, source, report, config),
            LintRule::RUST008(r) => r.check(file, source, report, config),
            LintRule::RUST009(r) => r.check(file, source, report, config),
            LintRule::RUST010(r) => r.check(file, source, report, config),
            LintRule::RUST011(r) => r.check(file, source, report, config),
            LintRule::RUST012(r) => r.check(file, source, report, config),
            LintRule::SQL001(r) => r.check(file, source, report, config),
            LintRule::SQL010(r) => r.check(file, source, report, config),
            LintRule::SQL020(r) => r.check(file, source, report, config),
            LintRule::SQL021(r) => r.check(file, source, report, config),
            LintRule::SQL030(r) => r.check(file, source, report, config),
            LintRule::SQL040(r) => r.check(file, source, report, config),
            LintRule::SQL050(r) => r.check(file, source, report, config),
            LintRule::SQL060(r) => r.check(file, source, report, config),
            LintRule::SQL070(r) => r.check(file, source, report, config),
            LintRule::TS001(r) => r.check(file, source, report, config),
            LintRule::TS010(r) => r.check(file, source, report, config),
            LintRule::TS020(r) => r.check(file, source, report, config),
            LintRule::TS030(r) => r.check(file, source, report, config),
            LintRule::TS040(r) => r.check(file, source, report, config),
            LintRule::TS050(r) => r.check(file, source, report, config),
            LintRule::TS060(r) => r.check(file, source, report, config),
            LintRule::TS070(r) => r.check(file, source, report, config),
            LintRule::TS080(r) => r.check(file, source, report, config),
            LintRule::TS090(r) => r.check(file, source, report, config),
            LintRule::CSS001(r) => r.check(file, source, report, config),
            LintRule::CSS004(r) => r.check(file, source, report, config),
            LintRule::CSS006(r) => r.check(file, source, report, config),
            LintRule::CSS007(r) => r.check(file, source, report, config),
            LintRule::CSS008(r) => r.check(file, source, report, config),
            LintRule::CSS009(r) => r.check(file, source, report, config),
            LintRule::CSS010(r) => r.check(file, source, report, config),
            LintRule::CSS003(r) => r.check(file, source, report, config),
            LintRule::CSS002(r) => r.check(file, source, report, config),
            LintRule::CSS005(r) => r.check(file, source, report, config),
            LintRule::MD005(r) => r.check(file, source, report, config),
            LintRule::MD016(r) => r.check(file, source, report, config),
            LintRule::MD017(r) => r.check(file, source, report, config),
            LintRule::MD018(r) => r.check(file, source, report, config),
            LintRule::MD019(r) => r.check(file, source, report, config),
            LintRule::MD020(r) => r.check(file, source, report, config),
            LintRule::MD021(r) => r.check(file, source, report, config),
            LintRule::MD022(r) => r.check(file, source, report, config),
            LintRule::MD024(r) => r.check(file, source, report, config),
            LintRule::MD006(r) => r.check(file, source, report, config),
            LintRule::MD011(r) => r.check(file, source, report, config),
            LintRule::MD030(r) => r.check(file, source, report, config),
            LintRule::MD031(r) => r.check(file, source, report, config),
            LintRule::MD032(r) => r.check(file, source, report, config),
            LintRule::MD033(r) => r.check(file, source, report, config),
        }
    }
}

} // verus!
