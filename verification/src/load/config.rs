//! The settings of a render, as a configuration in TOML gives them.

use vstd::prelude::*;
use vstd::string::*;

verus! {

/// A value of a TOML document: `toml::Value`.
#[verifier::external_type_specification]
#[verifier::external_body]
pub struct ExValue(toml::Value);

/// What stands at a path of a TOML document.
#[derive(Debug)]
pub enum Entry {
    /// A string.
    Text(String),
    /// An integer.
    Integer(i64),
    /// A float, as the bits of its 64-bit representation.
    Float(u64),
    /// A boolean.
    Boolean(bool),
    /// A date and time, as its text.
    Datetime(String),
    /// An array.
    Array,
    /// A table.
    Table,
}

/// What a TOML value holds: for every path that leads to a value in it,
/// with `.` between the keys and indices of the path, what stands there.
pub uninterp spec fn entries(conf: toml::Value) -> Map<Seq<char>, Entry>;

/// Looks up what stands at `path` in `conf`, with `toml::Value::lookup`: the
/// entry at the path, or `None` where the path leads to nothing. The
/// variants of the value that is found are told apart and its number, text
/// or truth value is handed on unchanged.
#[verifier::external_body]
fn lookup(conf: &toml::Value, path: &str) -> (r: Option<Entry>)
    ensures
        r == if entries(*conf).contains_key(path@) {
            Some(entries(*conf)[path@])
        } else {
            None
        },
{
    match conf.lookup(path) {
        None => None,
        Some(&toml::Value::String(ref s)) => Some(Entry::Text(s.clone())),
        Some(&toml::Value::Integer(i)) => Some(Entry::Integer(i)),
        Some(&toml::Value::Float(f)) => Some(Entry::Float(f.to_bits())),
        Some(&toml::Value::Boolean(b)) => Some(Entry::Boolean(b)),
        Some(&toml::Value::Datetime(ref s)) => Some(Entry::Datetime(s.clone())),
        Some(&toml::Value::Array(_)) => Some(Entry::Array),
        Some(&toml::Value::Table(_)) => Some(Entry::Table),
    }
}

/// The projection models.
#[derive(Copy, Clone, Debug, PartialEq, Eq, Structural)]
pub enum ViewKind {
    Rectilinear,
    Equirectangular,
}

/// The integer settings of a render.
#[derive(Copy, Clone, Debug, PartialEq, Eq, Structural)]
pub enum Field {
    Threads,
    Cols,
    Rows,
    Samples,
    MaxDepth,
    Branch,
}

/// Why a configuration is not accepted.
#[derive(Copy, Clone, Debug, PartialEq, Eq, Structural)]
pub enum ConfigError {
    /// `view` is not a table.
    ViewNotTable,
    /// `view` is missing.
    ViewMissing,
    /// `view.type` is not a string.
    ViewTypeNotString,
    /// `view.type` is missing.
    ViewTypeMissing,
    /// `view.type` names no projection model.
    UnknownViewType,
    /// The setting is not an integer.
    NotInteger(Field),
    /// The setting is missing and has no default.
    Missing(Field),
    /// `gamma` is not a float.
    GammaNotFloat,
    /// `obj` is not a string.
    ObjNotString,
    /// `obj` is missing.
    ObjMissing,
}

/// The settings of a render.
#[derive(Debug)]
pub struct Config {
    /// The number of worker threads; 1 where the configuration gives none.
    pub threads: i64,
    /// The number of columns of the image.
    pub cols: i64,
    /// The number of rows of the image.
    pub rows: i64,
    /// The number of samples of a pixel; 20 where the configuration gives none.
    pub samples: i64,
    /// The greatest depth of a path; 4 where the configuration gives none.
    pub max_depth: i64,
    /// The branching of a path; 1 where the configuration gives none.
    pub branch: i64,
    /// The gamma of the image, as the bits of a 64-bit float; those of 1.0
    /// where the configuration gives none.
    pub gamma: u64,
    /// The projection model.
    pub view: ViewKind,
    /// The path of the scene description.
    pub obj: String,
}

/// The bits of the 64-bit float 1.0.
pub const ONE_BITS: u64 = 0x3FF0_0000_0000_0000;

/// The path at which the configuration holds the setting.
pub open spec fn field_path(f: Field) -> Seq<char> {
    match f {
        Field::Threads => "threads"@,
        Field::Cols => "cols"@,
        Field::Rows => "rows"@,
        Field::Samples => "samples"@,
        Field::MaxDepth => "max_depth"@,
        Field::Branch => "branch"@,
    }
}

/// The value of a setting without which a render still runs, and none for the others.
pub open spec fn field_default(f: Field) -> Option<i64> {
    match f {
        Field::Threads => Some(1i64),
        Field::Cols => None,
        Field::Rows => None,
        Field::Samples => Some(20i64),
        Field::MaxDepth => Some(4i64),
        Field::Branch => Some(1i64),
    }
}

/// The integer setting `f` of a configuration: its integer where it has
/// one, its default where it has nothing, and otherwise the reason why the
/// configuration is not accepted.
pub open spec fn integer_spec(m: Map<Seq<char>, Entry>, f: Field) -> Result<i64, ConfigError> {
    if m.contains_key(field_path(f)) {
        match m[field_path(f)] {
            Entry::Integer(i) => Ok(i),
            _ => Err(ConfigError::NotInteger(f)),
        }
    } else {
        match field_default(f) {
            Some(d) => Ok(d),
            None => Err(ConfigError::Missing(f)),
        }
    }
}

/// The projection model of a configuration.
pub open spec fn view_spec(m: Map<Seq<char>, Entry>) -> Result<ViewKind, ConfigError> {
    if !m.contains_key("view"@) {
        Err(ConfigError::ViewMissing)
    } else if !(m["view"@] is Table) {
        Err(ConfigError::ViewNotTable)
    } else if !m.contains_key("view.type"@) {
        Err(ConfigError::ViewTypeMissing)
    } else {
        match m["view.type"@] {
            Entry::Text(s) => if s@ == "rectilinear"@ {
                Ok(ViewKind::Rectilinear)
            } else if s@ == "equirectangular"@ {
                Ok(ViewKind::Equirectangular)
            } else {
                Err(ConfigError::UnknownViewType)
            },
            _ => Err(ConfigError::ViewTypeNotString),
        }
    }
}

/// The gamma of a configuration, as bits.
pub open spec fn gamma_spec(m: Map<Seq<char>, Entry>) -> Result<u64, ConfigError> {
    if m.contains_key("gamma"@) {
        match m["gamma"@] {
            Entry::Float(b) => Ok(b),
            _ => Err(ConfigError::GammaNotFloat),
        }
    } else {
        Ok(ONE_BITS)
    }
}

/// The path of the scene description of a configuration.
pub open spec fn obj_spec(m: Map<Seq<char>, Entry>) -> Result<Seq<char>, ConfigError> {
    if m.contains_key("obj"@) {
        match m["obj"@] {
            Entry::Text(s) => Ok(s@),
            _ => Err(ConfigError::ObjNotString),
        }
    } else {
        Err(ConfigError::ObjMissing)
    }
}

/// The first reason, in the order view, threads, cols, rows, samples,
/// max_depth, branch, gamma, obj, why a configuration is not accepted, or
/// none where it is accepted.
pub open spec fn first_error(m: Map<Seq<char>, Entry>) -> Option<ConfigError> {
    if view_spec(m) is Err {
        Some(view_spec(m)->Err_0)
    } else if integer_spec(m, Field::Threads) is Err {
        Some(integer_spec(m, Field::Threads)->Err_0)
    } else if integer_spec(m, Field::Cols) is Err {
        Some(integer_spec(m, Field::Cols)->Err_0)
    } else if integer_spec(m, Field::Rows) is Err {
        Some(integer_spec(m, Field::Rows)->Err_0)
    } else if integer_spec(m, Field::Samples) is Err {
        Some(integer_spec(m, Field::Samples)->Err_0)
    } else if integer_spec(m, Field::MaxDepth) is Err {
        Some(integer_spec(m, Field::MaxDepth)->Err_0)
    } else if integer_spec(m, Field::Branch) is Err {
        Some(integer_spec(m, Field::Branch)->Err_0)
    } else if gamma_spec(m) is Err {
        Some(gamma_spec(m)->Err_0)
    } else if obj_spec(m) is Err {
        Some(obj_spec(m)->Err_0)
    } else {
        None
    }
}

/// The settings `c` are those that the configuration `m` gives.
pub open spec fn configures(m: Map<Seq<char>, Entry>, c: Config) -> bool {
    &&& Ok::<ViewKind, ConfigError>(c.view) == view_spec(m)
    &&& Ok::<i64, ConfigError>(c.threads) == integer_spec(m, Field::Threads)
    &&& Ok::<i64, ConfigError>(c.cols) == integer_spec(m, Field::Cols)
    &&& Ok::<i64, ConfigError>(c.rows) == integer_spec(m, Field::Rows)
    &&& Ok::<i64, ConfigError>(c.samples) == integer_spec(m, Field::Samples)
    &&& Ok::<i64, ConfigError>(c.max_depth) == integer_spec(m, Field::MaxDepth)
    &&& Ok::<i64, ConfigError>(c.branch) == integer_spec(m, Field::Branch)
    &&& Ok::<u64, ConfigError>(c.gamma) == gamma_spec(m)
    &&& Ok::<Seq<char>, ConfigError>(c.obj@) == obj_spec(m)
}

fn field_name(f: Field) -> (s: &'static str)
    ensures
        s@ == field_path(f),
{
    match f {
        Field::Threads => "threads",
        Field::Cols => "cols",
        Field::Rows => "rows",
        Field::Samples => "samples",
        Field::MaxDepth => "max_depth",
        Field::Branch => "branch",
    }
}

fn integer(conf: &toml::Value, f: Field) -> (r: Result<i64, ConfigError>)
    ensures
        r == integer_spec(entries(*conf), f),
{
    match lookup(conf, field_name(f)) {
        Some(Entry::Integer(i)) => Ok(i),
        Some(_) => Err(ConfigError::NotInteger(f)),
        None => match f {
            Field::Threads => Ok(1),
            Field::Cols => Err(ConfigError::Missing(f)),
            Field::Rows => Err(ConfigError::Missing(f)),
            Field::Samples => Ok(20),
            Field::MaxDepth => Ok(4),
            Field::Branch => Ok(1),
        },
    }
}

fn view_kind(conf: &toml::Value) -> (r: Result<ViewKind, ConfigError>)
    ensures
        r == view_spec(entries(*conf)),
{
    match lookup(conf, "view") {
        Some(Entry::Table) => {},
        Some(_) => {
            return Err(ConfigError::ViewNotTable);
        },
        None => {
            return Err(ConfigError::ViewMissing);
        },
    }
    match lookup(conf, "view.type") {
        Some(Entry::Text(s)) => {
            if s == String::from_str("rectilinear") {
                Ok(ViewKind::Rectilinear)
            } else if s == String::from_str("equirectangular") {
                Ok(ViewKind::Equirectangular)
            } else {
                Err(ConfigError::UnknownViewType)
            }
        },
        Some(_) => Err(ConfigError::ViewTypeNotString),
        None => Err(ConfigError::ViewTypeMissing),
    }
}

impl Config {
    /// Reads the settings of a render from a configuration. The first
    /// failing setting, in the order view, threads, cols, rows, samples,
    /// max_depth, branch, gamma, obj, decides the error.
    pub fn load(conf: &toml::Value) -> (r: Result<Config, ConfigError>)
        ensures
            first_error(entries(*conf)) matches Some(e) ==> r.is_err() && r.unwrap_err() == e,
            first_error(entries(*conf)).is_none() ==> r.is_ok() && configures(
                entries(*conf),
                r.unwrap(),
            ),
    {
        let view = match view_kind(conf) {
            Ok(v) => v,
            Err(e) => {
                return Err(e);
            },
        };
        let threads = match integer(conf, Field::Threads) {
            Ok(v) => v,
            Err(e) => {
                return Err(e);
            },
        };
        let cols = match integer(conf, Field::Cols) {
            Ok(v) => v,
            Err(e) => {
                return Err(e);
            },
        };
        let rows = match integer(conf, Field::Rows) {
            Ok(v) => v,
            Err(e) => {
                return Err(e);
            },
        };
        let samples = match integer(conf, Field::Samples) {
            Ok(v) => v,
            Err(e) => {
                return Err(e);
            },
        };
        let max_depth = match integer(conf, Field::MaxDepth) {
            Ok(v) => v,
            Err(e) => {
                return Err(e);
            },
        };
        let branch = match integer(conf, Field::Branch) {
            Ok(v) => v,
            Err(e) => {
                return Err(e);
            },
        };
        let gamma = match lookup(conf, "gamma") {
            Some(Entry::Float(b)) => b,
            Some(_) => {
                return Err(ConfigError::GammaNotFloat);
            },
            None => ONE_BITS,
        };
        let obj = match lookup(conf, "obj") {
            Some(Entry::Text(s)) => s,
            Some(_) => {
                return Err(ConfigError::ObjNotString);
            },
            None => {
                return Err(ConfigError::ObjMissing);
            },
        };
        Ok(
            Config {
                threads: threads,
                cols: cols,
                rows: rows,
                samples: samples,
                max_depth: max_depth,
                branch: branch,
                gamma: gamma,
                view: view,
                obj: obj,
            },
        )
    }
}

impl ConfigError {
    /// The message of the error.
    pub open spec fn text(self) -> Seq<char> {
        match self {
            ConfigError::ViewNotTable => "'view' should be a table"@,
            ConfigError::ViewMissing => "'view' missing"@,
            ConfigError::ViewTypeNotString => "'view.type' should be a string"@,
            ConfigError::ViewTypeMissing => "'view.type' missing"@,
            ConfigError::UnknownViewType => "unknown view type"@,
            ConfigError::NotInteger(Field::Threads) => "'threads' should be an integer"@,
            ConfigError::NotInteger(Field::Cols) => "'cols' should be an integer"@,
            ConfigError::NotInteger(Field::Rows) => "'rows' should be an integer"@,
            ConfigError::NotInteger(Field::Samples) => "'samples' should be an integer"@,
            ConfigError::NotInteger(Field::MaxDepth) => "'max_depth' should be an integer"@,
            ConfigError::NotInteger(Field::Branch) => "'branch' should be an integer"@,
            ConfigError::Missing(Field::Threads) => "'threads' missing"@,
            ConfigError::Missing(Field::Cols) => "'cols' missing"@,
            ConfigError::Missing(Field::Rows) => "'rows' missing"@,
            ConfigError::Missing(Field::Samples) => "'samples' missing"@,
            ConfigError::Missing(Field::MaxDepth) => "'max_depth' missing"@,
            ConfigError::Missing(Field::Branch) => "'branch' missing"@,
            ConfigError::GammaNotFloat => "'gamma' should be a floating point value"@,
            ConfigError::ObjNotString => "'obj' should be a string"@,
            ConfigError::ObjMissing => "'obj' missing"@,
        }
    }

    /// The message of the error.
    pub fn message(&self) -> (s: String)
        ensures
            s@ == self.text(),
    {
        match *self {
            ConfigError::ViewNotTable => String::from_str("'view' should be a table"),
            ConfigError::ViewMissing => String::from_str("'view' missing"),
            ConfigError::ViewTypeNotString => String::from_str("'view.type' should be a string"),
            ConfigError::ViewTypeMissing => String::from_str("'view.type' missing"),
            ConfigError::UnknownViewType => String::from_str("unknown view type"),
            ConfigError::NotInteger(Field::Threads) => String::from_str(
                "'threads' should be an integer",
            ),
            ConfigError::NotInteger(Field::Cols) => String::from_str("'cols' should be an integer"),
            ConfigError::NotInteger(Field::Rows) => String::from_str("'rows' should be an integer"),
            ConfigError::NotInteger(Field::Samples) => String::from_str(
                "'samples' should be an integer",
            ),
            ConfigError::NotInteger(Field::MaxDepth) => String::from_str(
                "'max_depth' should be an integer",
            ),
            ConfigError::NotInteger(Field::Branch) => String::from_str(
                "'branch' should be an integer",
            ),
            ConfigError::Missing(Field::Threads) => String::from_str("'threads' missing"),
            ConfigError::Missing(Field::Cols) => String::from_str("'cols' missing"),
            ConfigError::Missing(Field::Rows) => String::from_str("'rows' missing"),
            ConfigError::Missing(Field::Samples) => String::from_str("'samples' missing"),
            ConfigError::Missing(Field::MaxDepth) => String::from_str("'max_depth' missing"),
            ConfigError::Missing(Field::Branch) => String::from_str("'branch' missing"),
            ConfigError::GammaNotFloat => String::from_str(
                "'gamma' should be a floating point value",
            ),
            ConfigError::ObjNotString => String::from_str("'obj' should be a string"),
            ConfigError::ObjMissing => String::from_str("'obj' missing"),
        }
    }
}

/// The parameters of a rectilinear view as its table of a configuration
/// gives them, each as the bits of a 64-bit float: position, rotation in
/// degrees about the three axes, field of view in degrees, aperture and
/// focal point.
#[derive(Copy, Clone, Debug)]
pub struct RectilinearSettings {
    pub position: [u64; 3],
    pub rotation: [u64; 3],
    pub fov: u64,
    pub aperture: u64,
    pub focal: [u64; 3],
}

/// The parameters of an equirectangular view as its table of a
/// configuration gives them: the position, as the bits of 64-bit floats.
#[derive(Copy, Clone, Debug)]
pub struct EquirectangularSettings {
    pub position: [u64; 3],
}

/// The float at `path`, as bits, where a float stands there.
pub open spec fn number_spec(m: Map<Seq<char>, Entry>, path: Seq<char>) -> Option<u64> {
    if m.contains_key(path) {
        match m[path] {
            Entry::Float(b) => Some(b),
            _ => None,
        }
    } else {
        None
    }
}

/// The float at `path`, as bits, or those of zero where something else
/// stands there; nothing where nothing stands there.
pub open spec fn number_or_zero_spec(m: Map<Seq<char>, Entry>, path: Seq<char>) -> Option<u64> {
    if m.contains_key(path) {
        match m[path] {
            Entry::Float(b) => Some(b),
            _ => Some(0u64),
        }
    } else {
        None
    }
}

/// The three floats of the position of a view, where its table gives them.
pub open spec fn position_spec(m: Map<Seq<char>, Entry>) -> Option<Seq<u64>> {
    match (
        number_spec(m, "position.0"@),
        number_spec(m, "position.1"@),
        number_spec(m, "position.2"@),
    ) {
        (Some(x), Some(y), Some(z)) => Some(seq![x, y, z]),
        _ => None,
    }
}

/// The three floats of the rotation of a view, where its table gives them.
pub open spec fn rotation_spec(m: Map<Seq<char>, Entry>) -> Option<Seq<u64>> {
    match (
        number_spec(m, "rotation.0"@),
        number_spec(m, "rotation.1"@),
        number_spec(m, "rotation.2"@),
    ) {
        (Some(x), Some(y), Some(z)) => Some(seq![x, y, z]),
        _ => None,
    }
}

/// The three floats of the focal point of a view, where its table has them.
pub open spec fn focal_spec(m: Map<Seq<char>, Entry>) -> Option<Seq<u64>> {
    match (
        number_or_zero_spec(m, "focal.0"@),
        number_or_zero_spec(m, "focal.1"@),
        number_or_zero_spec(m, "focal.2"@),
    ) {
        (Some(x), Some(y), Some(z)) => Some(seq![x, y, z]),
        _ => None,
    }
}

/// The settings `s` are those that the table `m` gives a rectilinear view.
pub open spec fn rectilinear_of(m: Map<Seq<char>, Entry>, s: RectilinearSettings) -> bool {
    &&& position_spec(m) == Some(s.position@)
    &&& rotation_spec(m) == Some(s.rotation@)
    &&& number_spec(m, "fov"@) == Some(s.fov)
    &&& number_or_zero_spec(m, "aperture"@) == Some(s.aperture)
    &&& focal_spec(m) == Some(s.focal@)
}

/// The table `m` gives a rectilinear view all its parameters: position,
/// rotation and field of view as floats, and aperture and focal point as
/// anything.
pub open spec fn has_rectilinear(m: Map<Seq<char>, Entry>) -> bool {
    &&& position_spec(m).is_some()
    &&& rotation_spec(m).is_some()
    &&& number_spec(m, "fov"@).is_some()
    &&& number_or_zero_spec(m, "aperture"@).is_some()
    &&& focal_spec(m).is_some()
}

fn number(conf: &toml::Value, path: &str) -> (r: Option<u64>)
    ensures
        r == number_spec(entries(*conf), path@),
{
    match lookup(conf, path) {
        Some(Entry::Float(b)) => Some(b),
        _ => None,
    }
}

fn number_or_zero(conf: &toml::Value, path: &str) -> (r: Option<u64>)
    ensures
        r == number_or_zero_spec(entries(*conf), path@),
{
    match lookup(conf, path) {
        Some(Entry::Float(b)) => Some(b),
        Some(_) => Some(0),
        None => None,
    }
}

fn position(conf: &toml::Value) -> (r: Option<[u64; 3]>)
    ensures
        match r {
            Some(p) => position_spec(entries(*conf)) == Some(p@),
            None => position_spec(entries(*conf)).is_none(),
        },
{
    match (number(conf, "position.0"), number(conf, "position.1"), number(conf, "position.2")) {
        (Some(x), Some(y), Some(z)) => {
            let p = [x, y, z];
            assert(p@ =~= seq![x, y, z]);
            Some(p)
        },
        _ => None,
    }
}

impl RectilinearSettings {
    /// Reads the parameters of a rectilinear view from its table of a
    /// configuration; `None` where a parameter is missing, or where the
    /// position, the rotation or the field of view is no float.
    pub fn from_toml(conf: &toml::Value) -> (r: Option<RectilinearSettings>)
        ensures
            r.is_some() == has_rectilinear(entries(*conf)),
            r matches Some(s) ==> rectilinear_of(entries(*conf), s),
    {
        let position = match position(conf) {
            Some(p) => p,
            None => {
                return None;
            },
        };
        let rotation = match (
            number(conf, "rotation.0"),
            number(conf, "rotation.1"),
            number(conf, "rotation.2"),
        ) {
            (Some(x), Some(y), Some(z)) => {
                let p = [x, y, z];
                assert(p@ =~= seq![x, y, z]);
                p
            },
            _ => {
                return None;
            },
        };
        let fov = match number(conf, "fov") {
            Some(f) => f,
            None => {
                return None;
            },
        };
        let aperture = match number_or_zero(conf, "aperture") {
            Some(a) => a,
            None => {
                return None;
            },
        };
        let focal = match (
            number_or_zero(conf, "focal.0"),
            number_or_zero(conf, "focal.1"),
            number_or_zero(conf, "focal.2"),
        ) {
            (Some(x), Some(y), Some(z)) => {
                let p = [x, y, z];
                assert(p@ =~= seq![x, y, z]);
                p
            },
            _ => {
                return None;
            },
        };
        Some(
            RectilinearSettings {
                position: position,
                rotation: rotation,
                fov: fov,
                aperture: aperture,
                focal: focal,
            },
        )
    }
}

impl EquirectangularSettings {
    /// Reads the position of an equirectangular view from its table of a
    /// configuration; `None` where a coordinate is missing or no float.
    pub fn from_toml(conf: &toml::Value) -> (r: Option<EquirectangularSettings>)
        ensures
            match r {
                Some(s) => position_spec(entries(*conf)) == Some(s.position@),
                None => position_spec(entries(*conf)).is_none(),
            },
    {
        match position(conf) {
            Some(p) => Some(EquirectangularSettings { position: p }),
            None => None,
        }
    }
}

} // verus!
