//! Semantic errors: what went wrong, and where.
use vstd::prelude::*;
use crate::text::{decimal, i32_to_string, int_decimal, join3, string_of, usize_to_string};

verus! {

/// The kinds of semantic errors.
#[derive(Debug, Clone)]
pub enum SemanticErrorKind {
    UndefinedIdentifier(String),
    RedeclaredIdentifier(String),
    TypeMismatch { expected: String, found: String },
    InvalidOperation { op: String, left_type: String, right_type: String },
    ArgumentCountMismatch { expected: usize, found: usize },
    NotCallable(String),
    NotArray(String),
    IndexTypeMismatch(String),
    IndexOutOfBounds { index: i32, low: i32, high: i32 },
    AssignmentToConstant(String),
    InvalidIterator(String),
    GenericError(String),
}

/// A semantic error kind with its texts as character sequences.
pub enum ErrorKindView {
    UndefinedIdentifier(Seq<char>),
    RedeclaredIdentifier(Seq<char>),
    TypeMismatch { expected: Seq<char>, found: Seq<char> },
    InvalidOperation { op: Seq<char>, left_type: Seq<char>, right_type: Seq<char> },
    ArgumentCountMismatch { expected: nat, found: nat },
    NotCallable(Seq<char>),
    NotArray(Seq<char>),
    IndexTypeMismatch(Seq<char>),
    IndexOutOfBounds { index: int, low: int, high: int },
    AssignmentToConstant(Seq<char>),
    InvalidIterator(Seq<char>),
    GenericError(Seq<char>),
}

impl View for SemanticErrorKind {
    type V = ErrorKindView;

    open spec fn view(&self) -> ErrorKindView {
        match self {
            SemanticErrorKind::UndefinedIdentifier(s) => ErrorKindView::UndefinedIdentifier(s@),
            SemanticErrorKind::RedeclaredIdentifier(s) => ErrorKindView::RedeclaredIdentifier(s@),
            SemanticErrorKind::TypeMismatch { expected, found } => ErrorKindView::TypeMismatch { expected: expected@, found: found@ },
            SemanticErrorKind::InvalidOperation { op, left_type, right_type } =>
                ErrorKindView::InvalidOperation { op: op@, left_type: left_type@, right_type: right_type@ },
            SemanticErrorKind::ArgumentCountMismatch { expected, found } =>
                ErrorKindView::ArgumentCountMismatch { expected: *expected as nat, found: *found as nat },
            SemanticErrorKind::NotCallable(s) => ErrorKindView::NotCallable(s@),
            SemanticErrorKind::NotArray(s) => ErrorKindView::NotArray(s@),
            SemanticErrorKind::IndexTypeMismatch(s) => ErrorKindView::IndexTypeMismatch(s@),
            SemanticErrorKind::IndexOutOfBounds { index, low, high } =>
                ErrorKindView::IndexOutOfBounds { index: *index as int, low: *low as int, high: *high as int },
            SemanticErrorKind::AssignmentToConstant(s) => ErrorKindView::AssignmentToConstant(s@),
            SemanticErrorKind::InvalidIterator(s) => ErrorKindView::InvalidIterator(s@),
            SemanticErrorKind::GenericError(s) => ErrorKindView::GenericError(s@),
        }
    }
}

/// A semantic error with its position.
#[derive(Debug, Clone)]
pub struct SemanticError {
    pub kind: SemanticErrorKind,
    pub line: usize,
    pub column: usize,
}

/// A semantic error as a value.
pub struct SemanticErrorView {
    pub kind: ErrorKindView,
    pub line: nat,
    pub column: nat,
}

impl View for SemanticError {
    type V = SemanticErrorView;

    open spec fn view(&self) -> SemanticErrorView {
        SemanticErrorView { kind: self.kind@, line: self.line as nat, column: self.column as nat }
    }
}

/// The message of an error kind, in Indonesian as the compiler reports it.
pub open spec fn kind_message(k: ErrorKindView) -> Seq<char> {
    match k {
        ErrorKindView::UndefinedIdentifier(id) => "Identifier '"@ + id + "' belum dideklarasikan."@,
        ErrorKindView::RedeclaredIdentifier(id) => "Identifier '"@ + id + "' sudah dideklarasikan di scope ini."@,
        ErrorKindView::TypeMismatch { expected, found } =>
            "Tipe tidak cocok. Mengharapkan '"@ + expected + "', ditemukan '"@ + found + "'."@,
        ErrorKindView::InvalidOperation { op, left_type, right_type } =>
            "Operasi '"@ + op + "' tidak valid untuk tipe '"@ + left_type + "' dan '"@ + right_type + "'."@,
        ErrorKindView::ArgumentCountMismatch { expected, found } =>
            "Jumlah argumen salah. Mengharapkan "@ + decimal(expected) + ", ditemukan "@ + decimal(found) + "."@,
        ErrorKindView::NotCallable(id) => "'"@ + id + "' bukan fungsi atau prosedur, tidak bisa dipanggil."@,
        ErrorKindView::NotArray(id) => "'"@ + id + "' bukan array, tidak bisa diakses menggunakan indeks."@,
        ErrorKindView::IndexTypeMismatch(t) =>
            "Tipe indeks array harus ordinal (integer/char), ditemukan '"@ + t + "'."@,
        ErrorKindView::IndexOutOfBounds { index, low, high } =>
            "Array index "@ + int_decimal(index) + " di luar jangkauan ["@ + int_decimal(low) + ".."@
                + int_decimal(high) + "]"@,
        ErrorKindView::AssignmentToConstant(id) => "Tidak dapat mengubah nilai konstanta '"@ + id + "'."@,
        ErrorKindView::InvalidIterator(id) => "Iterator '"@ + id + "' harus berupa variabel lokal bertipe ordinal."@,
        ErrorKindView::GenericError(msg) => msg,
    }
}

/// The display form of an error: `SemanticError at L:C: message`.
pub open spec fn error_display(e: SemanticErrorView) -> Seq<char> {
    "SemanticError at "@ + decimal(e.line) + ":"@ + decimal(e.column) + ": "@ + kind_message(e.kind)
}

impl SemanticError {
    pub fn new(kind: SemanticErrorKind, line: usize, column: usize) -> (r: SemanticError)
        ensures
            r == (SemanticError { kind, line, column }),
    {
        SemanticError { kind, line, column }
    }

    /// A type mismatch: `expected` was wanted, `found` was given.
    pub fn type_mismatch(expected: String, found: String, line: usize, col: usize) -> (r: SemanticError)
        ensures
            r@ == (SemanticErrorView {
                kind: ErrorKindView::TypeMismatch { expected: expected@, found: found@ },
                line: line as nat,
                column: col as nat,
            }),
    {
        Self::new(SemanticErrorKind::TypeMismatch { expected, found }, line, col)
    }

    /// An identifier that is not declared.
    pub fn undefined(name: String, line: usize, col: usize) -> (r: SemanticError)
        ensures
            r@ == (SemanticErrorView { kind: ErrorKindView::UndefinedIdentifier(name@), line: line as nat, column: col as nat }),
    {
        Self::new(SemanticErrorKind::UndefinedIdentifier(name), line, col)
    }

    /// The display form `SemanticError at L:C: message`.
    pub fn to_string(&self) -> (r: String)
        ensures
            r@ == error_display(self@),
    {
        let message = match &self.kind {
            SemanticErrorKind::UndefinedIdentifier(id) => join3("Identifier '", id.as_str(), "' belum dideklarasikan."),
            SemanticErrorKind::RedeclaredIdentifier(id) =>
                join3("Identifier '", id.as_str(), "' sudah dideklarasikan di scope ini."),
            SemanticErrorKind::TypeMismatch { expected, found } => {
                let mut m = join3("Tipe tidak cocok. Mengharapkan '", expected.as_str(), "', ditemukan '");
                m.append(found.as_str());
                m.append("'.");
                m
            },
            SemanticErrorKind::InvalidOperation { op, left_type, right_type } => {
                let mut m = join3("Operasi '", op.as_str(), "' tidak valid untuk tipe '");
                m.append(left_type.as_str());
                m.append("' dan '");
                m.append(right_type.as_str());
                m.append("'.");
                m
            },
            SemanticErrorKind::ArgumentCountMismatch { expected, found } => {
                let e = usize_to_string(*expected);
                let f = usize_to_string(*found);
                let mut m = join3("Jumlah argumen salah. Mengharapkan ", e.as_str(), ", ditemukan ");
                m.append(f.as_str());
                m.append(".");
                m
            },
            SemanticErrorKind::NotCallable(id) =>
                join3("'", id.as_str(), "' bukan fungsi atau prosedur, tidak bisa dipanggil."),
            SemanticErrorKind::NotArray(id) =>
                join3("'", id.as_str(), "' bukan array, tidak bisa diakses menggunakan indeks."),
            SemanticErrorKind::IndexTypeMismatch(t) =>
                join3("Tipe indeks array harus ordinal (integer/char), ditemukan '", t.as_str(), "'."),
            SemanticErrorKind::IndexOutOfBounds { index, low, high } => {
                let i = i32_to_string(*index);
                let l = i32_to_string(*low);
                let h = i32_to_string(*high);
                let mut m = join3("Array index ", i.as_str(), " di luar jangkauan [");
                m.append(l.as_str());
                m.append("..");
                m.append(h.as_str());
                m.append("]");
                m
            },
            SemanticErrorKind::AssignmentToConstant(id) =>
                join3("Tidak dapat mengubah nilai konstanta '", id.as_str(), "'."),
            SemanticErrorKind::InvalidIterator(id) =>
                join3("Iterator '", id.as_str(), "' harus berupa variabel lokal bertipe ordinal."),
            SemanticErrorKind::GenericError(msg) => msg.clone(),
        };
        let line = usize_to_string(self.line);
        let col = usize_to_string(self.column);
        let mut r = join3("SemanticError at ", line.as_str(), ":");
        r.append(col.as_str());
        r.append(": ");
        r.append(message.as_str());
        r
    }
}

} // verus!
