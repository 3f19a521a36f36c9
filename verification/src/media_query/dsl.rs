use vstd::prelude::*;
use crate::text::{chars_of, starts_with, is_prefix, concat};
use crate::media_query::values::{DateValue, UuidValue, parse_bool, parse_i32, is_float_literal, spec_parse_bool, spec_parse_i32, spec_is_float_literal, spec_date_from_parsed, chrono_parse_from_str, date_format, spec_uuid_from_parsed, uuid_parse_str};

verus! {

/// The operators of a filter value type: their spelling in the filter
/// language, and how a spelling at the front of a string is recognized.
pub trait DSLType: Sized {
    /// The spelling of the operator.
    spec fn spec_to_str(&self) -> Seq<char>;

    /// The operator whose spelling starts `s`, trying the operators in their
    /// order of declaration (longer spellings before their prefixes).
    spec fn spec_from_str(s: Seq<char>) -> Option<Self>;

    /// The spellings of all operators, in their order of declaration.
    spec fn spec_variants() -> Seq<Seq<char>>;

    fn to_str(&self) -> (r: &'static str)
        ensures
            r@ == self.spec_to_str(),
    ;

    fn from_str(s: &str) -> (r: Option<Self>)
        ensures
            r == Self::spec_from_str(s@),
    ;

    fn variants() -> (r: Vec<&'static str>)
        ensures
            r@.map_values(|v: &'static str| v@) == Self::spec_variants(),
    ;
}

#[derive(Debug, Clone, Copy, PartialEq, Eq, Structural)]
pub enum DSLBool {
    Equal,
}

#[derive(Debug, Clone, Copy, PartialEq, Eq, Structural)]
pub enum DSLInteger {
    GreaterEqual,
    LessEqual,
    Greater,
    Less,
    Equal,
}

#[derive(Debug, Clone, Copy, PartialEq, Eq, Structural)]
pub enum DSLFloat {
    GreaterEqual,
    LessEqual,
    Greater,
    Less,
    Equal,
}

#[derive(Debug, Clone, Copy, PartialEq, Eq, Structural)]
pub enum DSLString {
    NotEqual,
    Equal,
    Like,
    NotLike,
}

#[derive(Debug, Clone, Copy, PartialEq, Eq, Structural)]
pub enum DSLDate {
    BeforeEqual,
    AfterEqual,
    Equal,
    Before,
    After,
}

#[derive(Debug, Clone, Copy, PartialEq, Eq, Structural)]
pub enum DSLUuid {
    Equal,
    NotEqual,
}

impl DSLType for DSLBool {
    open spec fn spec_to_str(&self) -> Seq<char> {
        match self {
            DSLBool::Equal => "="@,
        }
    }

    open spec fn spec_from_str(s: Seq<char>) -> Option<Self> {
        if is_prefix("="@, s) {
            Some(DSLBool::Equal)
        } else {
            None
        }
    }

    open spec fn spec_variants() -> Seq<Seq<char>> {
        seq!["="@]
    }

    fn to_str(&self) -> (r: &'static str) {
        match self {
            DSLBool::Equal => "=",
        }
    }

    fn from_str(s: &str) -> (r: Option<Self>) {
        let cs = chars_of(s);
        if starts_with(&cs, "=") {
            Some(DSLBool::Equal)
        } else {
            None
        }
    }

    fn variants() -> (r: Vec<&'static str>) {
        let r = vec!["="];
        assert(r@.map_values(|v: &'static str| v@) == Self::spec_variants());
        r
    }
}

impl DSLType for DSLInteger {
    open spec fn spec_to_str(&self) -> Seq<char> {
        match self {
            DSLInteger::GreaterEqual => ">="@,
            DSLInteger::LessEqual => "<="@,
            DSLInteger::Greater => ">"@,
            DSLInteger::Less => "<"@,
            DSLInteger::Equal => "="@,
        }
    }

    open spec fn spec_from_str(s: Seq<char>) -> Option<Self> {
        if is_prefix(">="@, s) {
            Some(DSLInteger::GreaterEqual)
        } else if is_prefix("<="@, s) {
            Some(DSLInteger::LessEqual)
        } else if is_prefix(">"@, s) {
            Some(DSLInteger::Greater)
        } else if is_prefix("<"@, s) {
            Some(DSLInteger::Less)
        } else if is_prefix("="@, s) {
            Some(DSLInteger::Equal)
        } else {
            None
        }
    }

    open spec fn spec_variants() -> Seq<Seq<char>> {
        seq![">="@, "<="@, ">"@, "<"@, "="@]
    }

    fn to_str(&self) -> (r: &'static str) {
        match self {
            DSLInteger::GreaterEqual => ">=",
            DSLInteger::LessEqual => "<=",
            DSLInteger::Greater => ">",
            DSLInteger::Less => "<",
            DSLInteger::Equal => "=",
        }
    }

    fn from_str(s: &str) -> (r: Option<Self>) {
        let cs = chars_of(s);
        if starts_with(&cs, ">=") {
            Some(DSLInteger::GreaterEqual)
        } else if starts_with(&cs, "<=") {
            Some(DSLInteger::LessEqual)
        } else if starts_with(&cs, ">") {
            Some(DSLInteger::Greater)
        } else if starts_with(&cs, "<") {
            Some(DSLInteger::Less)
        } else if starts_with(&cs, "=") {
            Some(DSLInteger::Equal)
        } else {
            None
        }
    }

    fn variants() -> (r: Vec<&'static str>) {
        let r = vec![">=", "<=", ">", "<", "="];
        assert(r@.map_values(|v: &'static str| v@) == Self::spec_variants());
        r
    }
}

impl DSLType for DSLFloat {
    open spec fn spec_to_str(&self) -> Seq<char> {
        match self {
            DSLFloat::GreaterEqual => ">="@,
            DSLFloat::LessEqual => "<="@,
            DSLFloat::Greater => ">"@,
            DSLFloat::Less => "<"@,
            DSLFloat::Equal => "="@,
        }
    }

    open spec fn spec_from_str(s: Seq<char>) -> Option<Self> {
        if is_prefix(">="@, s) {
            Some(DSLFloat::GreaterEqual)
        } else if is_prefix("<="@, s) {
            Some(DSLFloat::LessEqual)
        } else if is_prefix(">"@, s) {
            Some(DSLFloat::Greater)
        } else if is_prefix("<"@, s) {
            Some(DSLFloat::Less)
        } else if is_prefix("="@, s) {
            Some(DSLFloat::Equal)
        } else {
            None
        }
    }

    open spec fn spec_variants() -> Seq<Seq<char>> {
        seq![">="@, "<="@, ">"@, "<"@, "="@]
    }

    fn to_str(&self) -> (r: &'static str) {
        match self {
            DSLFloat::GreaterEqual => ">=",
            DSLFloat::LessEqual => "<=",
            DSLFloat::Greater => ">",
            DSLFloat::Less => "<",
            DSLFloat::Equal => "=",
        }
    }

    fn from_str(s: &str) -> (r: Option<Self>) {
        let cs = chars_of(s);
        if starts_with(&cs, ">=") {
            Some(DSLFloat::GreaterEqual)
        } else if starts_with(&cs, "<=") {
            Some(DSLFloat::LessEqual)
        } else if starts_with(&cs, ">") {
            Some(DSLFloat::Greater)
        } else if starts_with(&cs, "<") {
            Some(DSLFloat::Less)
        } else if starts_with(&cs, "=") {
            Some(DSLFloat::Equal)
        } else {
            None
        }
    }

    fn variants() -> (r: Vec<&'static str>) {
        let r = vec![">=", "<=", ">", "<", "="];
        assert(r@.map_values(|v: &'static str| v@) == Self::spec_variants());
        r
    }
}

impl DSLType for DSLString {
    open spec fn spec_to_str(&self) -> Seq<char> {
        match self {
            DSLString::NotEqual => "!="@,
            DSLString::Equal => "="@,
            DSLString::Like => "%"@,
            DSLString::NotLike => "!%"@,
        }
    }

    open spec fn spec_from_str(s: Seq<char>) -> Option<Self> {
        if is_prefix("!="@, s) {
            Some(DSLString::NotEqual)
        } else if is_prefix("="@, s) {
            Some(DSLString::Equal)
        } else if is_prefix("%"@, s) {
            Some(DSLString::Like)
        } else if is_prefix("!%"@, s) {
            Some(DSLString::NotLike)
        } else {
            None
        }
    }

    open spec fn spec_variants() -> Seq<Seq<char>> {
        seq!["!="@, "="@, "%"@, "!%"@]
    }

    fn to_str(&self) -> (r: &'static str) {
        match self {
            DSLString::NotEqual => "!=",
            DSLString::Equal => "=",
            DSLString::Like => "%",
            DSLString::NotLike => "!%",
        }
    }

    fn from_str(s: &str) -> (r: Option<Self>) {
        let cs = chars_of(s);
        if starts_with(&cs, "!=") {
            Some(DSLString::NotEqual)
        } else if starts_with(&cs, "=") {
            Some(DSLString::Equal)
        } else if starts_with(&cs, "%") {
            Some(DSLString::Like)
        } else if starts_with(&cs, "!%") {
            Some(DSLString::NotLike)
        } else {
            None
        }
    }

    fn variants() -> (r: Vec<&'static str>) {
        let r = vec!["!=", "=", "%", "!%"];
        assert(r@.map_values(|v: &'static str| v@) == Self::spec_variants());
        r
    }
}

impl DSLType for DSLDate {
    open spec fn spec_to_str(&self) -> Seq<char> {
        match self {
            DSLDate::BeforeEqual => "<="@,
            DSLDate::AfterEqual => ">="@,
            DSLDate::Equal => "="@,
            DSLDate::Before => "<"@,
            DSLDate::After => ">"@,
        }
    }

    open spec fn spec_from_str(s: Seq<char>) -> Option<Self> {
        if is_prefix("<="@, s) {
            Some(DSLDate::BeforeEqual)
        } else if is_prefix(">="@, s) {
            Some(DSLDate::AfterEqual)
        } else if is_prefix("="@, s) {
            Some(DSLDate::Equal)
        } else if is_prefix("<"@, s) {
            Some(DSLDate::Before)
        } else if is_prefix(">"@, s) {
            Some(DSLDate::After)
        } else {
            None
        }
    }

    open spec fn spec_variants() -> Seq<Seq<char>> {
        seq!["<="@, ">="@, "="@, "<"@, ">"@]
    }

    fn to_str(&self) -> (r: &'static str) {
        match self {
            DSLDate::BeforeEqual => "<=",
            DSLDate::AfterEqual => ">=",
            DSLDate::Equal => "=",
            DSLDate::Before => "<",
            DSLDate::After => ">",
        }
    }

    fn from_str(s: &str) -> (r: Option<Self>) {
        let cs = chars_of(s);
        if starts_with(&cs, "<=") {
            Some(DSLDate::BeforeEqual)
        } else if starts_with(&cs, ">=") {
            Some(DSLDate::AfterEqual)
        } else if starts_with(&cs, "=") {
            Some(DSLDate::Equal)
        } else if starts_with(&cs, "<") {
            Some(DSLDate::Before)
        } else if starts_with(&cs, ">") {
            Some(DSLDate::After)
        } else {
            None
        }
    }

    fn variants() -> (r: Vec<&'static str>) {
        let r = vec!["<=", ">=", "=", "<", ">"];
        assert(r@.map_values(|v: &'static str| v@) == Self::spec_variants());
        r
    }
}

impl DSLType for DSLUuid {
    open spec fn spec_to_str(&self) -> Seq<char> {
        match self {
            DSLUuid::Equal => "="@,
            DSLUuid::NotEqual => "!="@,
        }
    }

    open spec fn spec_from_str(s: Seq<char>) -> Option<Self> {
        if is_prefix("="@, s) {
            Some(DSLUuid::Equal)
        } else if is_prefix("!="@, s) {
            Some(DSLUuid::NotEqual)
        } else {
            None
        }
    }

    open spec fn spec_variants() -> Seq<Seq<char>> {
        seq!["="@, "!="@]
    }

    fn to_str(&self) -> (r: &'static str) {
        match self {
            DSLUuid::Equal => "=",
            DSLUuid::NotEqual => "!=",
        }
    }

    fn from_str(s: &str) -> (r: Option<Self>) {
        let cs = chars_of(s);
        if starts_with(&cs, "=") {
            Some(DSLUuid::Equal)
        } else if starts_with(&cs, "!=") {
            Some(DSLUuid::NotEqual)
        } else {
            None
        }
    }

    fn variants() -> (r: Vec<&'static str>) {
        let r = vec!["=", "!="];
        assert(r@.map_values(|v: &'static str| v@) == Self::spec_variants());
        r
    }
}


impl DSLBool {
    /// The SQL comparison operator of the filter operator.
    pub fn to_sql_string(&self) -> (r: &'static str)
        ensures
            r@ == "="@,
    {
        match self {
            DSLBool::Equal => "=",
        }
    }
}

impl DSLUuid {
    /// The SQL comparison operator of the filter operator.
    pub fn to_sql_string(&self) -> (r: &'static str)
        ensures
            r@ == self.spec_to_str(),
    {
        match self {
            DSLUuid::Equal => "=",
            DSLUuid::NotEqual => "!=",
        }
    }
}

impl DSLInteger {
    /// The SQL comparison operator of the filter operator.
    pub fn to_sql_string(&self) -> (r: &'static str)
        ensures
            r@ == self.spec_to_str(),
    {
        match self {
            DSLInteger::GreaterEqual => ">=",
            DSLInteger::LessEqual => "<=",
            DSLInteger::Greater => ">",
            DSLInteger::Less => "<",
            DSLInteger::Equal => "=",
        }
    }
}

impl DSLFloat {
    /// The SQL comparison operator of the filter operator.
    pub fn to_sql_string(&self) -> (r: &'static str)
        ensures
            r@ == self.spec_to_str(),
    {
        match self {
            DSLFloat::GreaterEqual => ">=",
            DSLFloat::LessEqual => "<=",
            DSLFloat::Greater => ">",
            DSLFloat::Less => "<",
            DSLFloat::Equal => "=",
        }
    }
}

impl DSLString {
    pub open spec fn spec_sql(&self) -> Seq<char> {
        match self {
            DSLString::NotEqual => "!="@,
            DSLString::Equal => "="@,
            DSLString::Like => "LIKE"@,
            DSLString::NotLike => "NOT LIKE"@,
        }
    }

    /// The SQL comparison operator of the filter operator (`%` is `LIKE`).
    pub fn to_sql_string(&self) -> (r: &'static str)
        ensures
            r@ == self.spec_sql(),
    {
        match self {
            DSLString::NotEqual => "!=",
            DSLString::Equal => "=",
            DSLString::Like => "LIKE",
            DSLString::NotLike => "NOT LIKE",
        }
    }
}

impl DSLDate {
    /// The SQL comparison operator of the filter operator.
    pub fn to_sql_string(&self) -> (r: &'static str)
        ensures
            r@ == self.spec_to_str(),
    {
        match self {
            DSLDate::Equal => "=",
            DSLDate::Before => "<",
            DSLDate::After => ">",
            DSLDate::BeforeEqual => "<=",
            DSLDate::AfterEqual => ">=",
        }
    }
}

/// A value that does not begin with `=` (which could extend a `<` or `>`).
pub open spec fn no_leading_eq(v: Seq<char>) -> bool {
    !(v.len() > 0 && v[0] == '=')
}

proof fn lemma_prefix1(a: char, s: Seq<char>)
    ensures
        is_prefix(seq![a], s) <==> (s.len() >= 1 && s[0] == a),
{
    if s.len() >= 1 && s[0] == a {
        assert(s.take(1) == seq![a]);
    }
    if is_prefix(seq![a], s) {
        assert(s.take(1)[0] == s[0]);
    }
}

proof fn lemma_prefix2(a: char, b: char, s: Seq<char>)
    ensures
        is_prefix(seq![a, b], s) <==> (s.len() >= 2 && s[0] == a && s[1] == b),
{
    if s.len() >= 2 && s[0] == a && s[1] == b {
        assert(s.take(2) == seq![a, b]);
    }
    if is_prefix(seq![a, b], s) {
        assert(s.take(2)[0] == s[0]);
        assert(s.take(2)[1] == s[1]);
    }
}

/// The spellings as character sequences, and what a string that starts with
/// one of them looks like.
proof fn lemma_spellings(s: Seq<char>)
    ensures
        "="@ == seq!['='],
        ">"@ == seq!['>'],
        "<"@ == seq!['<'],
        "%"@ == seq!['%'],
        ">="@ == seq!['>', '='],
        "<="@ == seq!['<', '='],
        "!="@ == seq!['!', '='],
        "!%"@ == seq!['!', '%'],
        is_prefix("="@, s) <==> (s.len() >= 1 && s[0] == '='),
        is_prefix(">"@, s) <==> (s.len() >= 1 && s[0] == '>'),
        is_prefix("<"@, s) <==> (s.len() >= 1 && s[0] == '<'),
        is_prefix("%"@, s) <==> (s.len() >= 1 && s[0] == '%'),
        is_prefix(">="@, s) <==> (s.len() >= 2 && s[0] == '>' && s[1] == '='),
        is_prefix("<="@, s) <==> (s.len() >= 2 && s[0] == '<' && s[1] == '='),
        is_prefix("!="@, s) <==> (s.len() >= 2 && s[0] == '!' && s[1] == '='),
        is_prefix("!%"@, s) <==> (s.len() >= 2 && s[0] == '!' && s[1] == '%'),
{
    reveal_strlit("=");
    reveal_strlit("!=");
    reveal_strlit(">=");
    reveal_strlit("<=");
    reveal_strlit(">");
    reveal_strlit("<");
    reveal_strlit("%");
    reveal_strlit("!%");
    assert("="@ == seq!['=']);
    assert(">"@ == seq!['>']);
    assert("<"@ == seq!['<']);
    assert("%"@ == seq!['%']);
    assert(">="@ == seq!['>', '=']);
    assert("<="@ == seq!['<', '=']);
    assert("!="@ == seq!['!', '=']);
    assert("!%"@ == seq!['!', '%']);
    lemma_prefix1('=', s);
    lemma_prefix1('>', s);
    lemma_prefix1('<', s);
    lemma_prefix1('%', s);
    lemma_prefix2('>', '=', s);
    lemma_prefix2('<', '=', s);
    lemma_prefix2('!', '=', s);
    lemma_prefix2('!', '%', s);
}

proof fn lemma_spelled(p: Seq<char>, v: Seq<char>)
    requires
        no_leading_eq(v),
        1 <= p.len() <= 2,
    ensures
        (p + v).len() >= p.len(),
        (p + v)[0] == p[0],
        p.len() == 2 ==> (p + v)[1] == p[1],
        p.len() == 1 && (p + v).len() >= 2 ==> (p + v)[1] != '=',
{
    if p.len() == 1 && (p + v).len() >= 2 {
        assert((p + v)[1] == v[0]);
    }
}

/// Every operator is read back from its own spelling followed by a value that
/// does not begin with `=`; the longer spellings come first in each type, so no
/// operator hides another.
pub proof fn lemma_operators_read_back(v: Seq<char>)
    requires
        no_leading_eq(v),
    ensures
        forall|o: DSLBool| DSLBool::spec_from_str(#[trigger] o.spec_to_str() + v) == Some(o),
        forall|o: DSLInteger| DSLInteger::spec_from_str(#[trigger] o.spec_to_str() + v) == Some(o),
        forall|o: DSLFloat| DSLFloat::spec_from_str(#[trigger] o.spec_to_str() + v) == Some(o),
        forall|o: DSLString| DSLString::spec_from_str(#[trigger] o.spec_to_str() + v) == Some(o),
        forall|o: DSLDate| DSLDate::spec_from_str(#[trigger] o.spec_to_str() + v) == Some(o),
        forall|o: DSLUuid| DSLUuid::spec_from_str(#[trigger] o.spec_to_str() + v) == Some(o),
{
    assert forall|o: DSLBool| DSLBool::spec_from_str(#[trigger] o.spec_to_str() + v) == Some(o) by {
        lemma_spellings(o.spec_to_str() + v);
        lemma_spelled(o.spec_to_str(), v);
    }
    assert forall|o: DSLInteger| DSLInteger::spec_from_str(#[trigger] o.spec_to_str() + v) == Some(o) by {
        lemma_spellings(o.spec_to_str() + v);
        lemma_spelled(o.spec_to_str(), v);
    }
    assert forall|o: DSLFloat| DSLFloat::spec_from_str(#[trigger] o.spec_to_str() + v) == Some(o) by {
        lemma_spellings(o.spec_to_str() + v);
        lemma_spelled(o.spec_to_str(), v);
    }
    assert forall|o: DSLString| DSLString::spec_from_str(#[trigger] o.spec_to_str() + v) == Some(o) by {
        lemma_spellings(o.spec_to_str() + v);
        lemma_spelled(o.spec_to_str(), v);
    }
    assert forall|o: DSLDate| DSLDate::spec_from_str(#[trigger] o.spec_to_str() + v) == Some(o) by {
        lemma_spellings(o.spec_to_str() + v);
        lemma_spelled(o.spec_to_str(), v);
    }
    assert forall|o: DSLUuid| DSLUuid::spec_from_str(#[trigger] o.spec_to_str() + v) == Some(o) by {
        lemma_spellings(o.spec_to_str() + v);
        lemma_spelled(o.spec_to_str(), v);
    }
}


/// A string operator is read back from its spelling followed by any value:
/// no spelling of a string operator is `<`, `>` or a prefix of another one
/// tried before it.
pub proof fn lemma_string_operators_read_back(o: DSLString, v: Seq<char>)
    ensures
        DSLString::spec_from_str(o.spec_to_str() + v) == Some(o),
{
    let p = o.spec_to_str();
    let s = p + v;
    lemma_spellings(s);
    assert(s[0] == p[0]);
    if p.len() == 2 {
        assert(s[1] == p[1]);
    }
}

/// A floating-point filter value, kept as the literal that was written (a
/// literal that `str::parse::<f64>` accepts).
#[derive(Debug, Clone, PartialEq)]
pub struct FloatValue {
    pub text: String,
}

impl View for FloatValue {
    type V = Seq<char>;

    open spec fn view(&self) -> Seq<char> {
        self.text@
    }
}

pub open spec fn spec_parse_bool_value(x: Seq<char>) -> Result<bool, Seq<char>> {
    match spec_parse_bool(x) {
        Some(b) => Ok(b),
        None => Err("invalid bool format: "@ + x),
    }
}

pub open spec fn spec_parse_integer_value(x: Seq<char>) -> Result<i32, Seq<char>> {
    match spec_parse_i32(x) {
        Some(i) => Ok(i),
        None => Err("invalid number format: "@ + x),
    }
}

pub open spec fn spec_parse_float_value(x: Seq<char>) -> Result<Seq<char>, Seq<char>> {
    if spec_is_float_literal(x) {
        Ok(x)
    } else {
        Err("invalid float format: "@ + x)
    }
}

pub open spec fn spec_parse_date_value(x: Seq<char>) -> Result<DateValue, Seq<char>> {
    spec_date_from_parsed(chrono_parse_from_str(x, date_format()))
}

pub open spec fn spec_parse_uuid_value(x: Seq<char>) -> Result<UuidValue, Seq<char>> {
    spec_uuid_from_parsed(uuid_parse_str(x), x)
}

impl DSLBool {
    /// Reads a boolean value (`true` or `false`).
    pub fn parse(x: &str) -> (r: Result<bool, String>)
        ensures
            match r {
                Ok(b) => spec_parse_bool_value(x@) == Ok::<bool, Seq<char>>(b),
                Err(e) => spec_parse_bool_value(x@) == Err::<bool, Seq<char>>(e@),
            },
    {
        let cs = chars_of(x);
        match parse_bool(&cs) {
            Some(b) => Ok(b),
            None => Err(concat("invalid bool format: ", x)),
        }
    }
}

impl DSLInteger {
    /// Reads an `i32` value.
    pub fn parse(x: &str) -> (r: Result<i32, String>)
        ensures
            match r {
                Ok(i) => spec_parse_integer_value(x@) == Ok::<i32, Seq<char>>(i),
                Err(e) => spec_parse_integer_value(x@) == Err::<i32, Seq<char>>(e@),
            },
    {
        let cs = chars_of(x);
        match parse_i32(&cs) {
            Some(i) => Ok(i),
            None => Err(concat("invalid number format: ", x)),
        }
    }
}

impl DSLFloat {
    /// Reads a floating-point value, keeping its literal.
    pub fn parse(x: &str) -> (r: Result<FloatValue, String>)
        ensures
            match r {
                Ok(f) => spec_parse_float_value(x@) == Ok::<Seq<char>, Seq<char>>(f@),
                Err(e) => spec_parse_float_value(x@) == Err::<Seq<char>, Seq<char>>(e@),
            },
    {
        let cs = chars_of(x);
        if is_float_literal(&cs) {
            Ok(FloatValue { text: x.to_string() })
        } else {
            Err(concat("invalid float format: ", x))
        }
    }
}

impl DSLString {
    /// A string value is the text itself.
    pub fn parse(x: &str) -> (r: Result<String, String>)
        ensures
            r matches Ok(s) && s@ == x@,
    {
        Ok(x.to_string())
    }
}

impl DSLDate {
    /// Reads a date in the `%Y-%m-%d` format.
    pub fn parse(x: &str) -> (r: Result<DateValue, String>)
        ensures
            match r {
                Ok(d) => spec_parse_date_value(x@) == Ok::<DateValue, Seq<char>>(d) && 1 <= d.month <= 12 && 1 <= d.day <= 31,
                Err(e) => spec_parse_date_value(x@) == Err::<DateValue, Seq<char>>(e@),
            },
    {
        DateValue::parse(x)
    }
}

impl DSLUuid {
    /// Reads a UUID.
    pub fn parse(x: &str) -> (r: Result<UuidValue, String>)
        ensures
            match r {
                Ok(u) => spec_parse_uuid_value(x@) == Ok::<UuidValue, Seq<char>>(u),
                Err(e) => spec_parse_uuid_value(x@) == Err::<UuidValue, Seq<char>>(e@),
            },
    {
        UuidValue::parse(x)
    }
}

} // verus!
