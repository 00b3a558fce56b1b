//! Decoding a multipart upload request: classify the fields, decode the
//! `operations` and `map` fields, then bind every uploaded file at the
//! variable paths the map declares for it.

use vstd::prelude::*;

use crate::DecodeError;
use crate::codec::{
    OpsModel, RawOps, cbor_file_map_of, json_documents_of, json_file_map_of, mime_essence_of,
    parse_file_map_cbor, parse_file_map_json, parse_mime_essence, parse_operations_json,
};
use crate::filemap::FileMap;
use crate::model::{Batch, BatchModel, Binding, BindingModel, Doc, DocModel, Upload, UploadModel};
use crate::paths::split_batch_path;
use crate::paths::split_index_path;

verus! {

/// One field of a multipart body, as the transport handed it over: its
/// name, the filename and content type the client declared, and its bytes.
pub struct Field {
    pub name: String,
    pub filename: Option<String>,
    pub content_type: Option<String>,
    pub data: Vec<u8>,
}

/// Mathematical model of a [`Field`].
pub struct FieldModel {
    pub name: Seq<char>,
    pub filename: Option<Seq<char>>,
    pub content_type: Option<Seq<char>>,
    pub data: Seq<u8>,
}

impl Field {
    pub open spec fn model(&self) -> FieldModel {
        FieldModel {
            name: self.name@,
            filename: match self.filename {
                Some(n) => Some(n@),
                None => None,
            },
            content_type: match self.content_type {
                Some(ct) => Some(ct@),
                None => None,
            },
            data: self.data@,
        }
    }
}

pub open spec fn models(fields: Seq<Field>) -> Seq<FieldModel> {
    fields.map_values(|f: Field| f.model())
}

/// The size and count limits applied to uploaded file parts, fixed before
/// decoding begins.
#[derive(Clone, Copy)]
pub struct Limits {
    pub max_file_size: Option<usize>,
    pub max_files: Option<usize>,
}

/// Decode-time configuration: the limits, and whether the binary `map`
/// encoding is enabled.
#[derive(Clone, Copy)]
pub struct MultipartConfig {
    pub limits: Limits,
    pub cbor_enabled: bool,
}

pub open spec fn is_ops_name(n: Seq<char>) -> bool {
    n == "operations"@
}

pub open spec fn is_map_name(n: Seq<char>) -> bool {
    n == "map"@
}

/// A field is a file part when it is neither `operations` nor `map`, has
/// a nonempty name, and declares a filename.
pub open spec fn is_file_part(f: FieldModel) -> bool {
    &&& !is_ops_name(f.name)
    &&& !is_map_name(f.name)
    &&& f.name.len() > 0
    &&& f.filename is Some
}

/// The bytes of the last `operations` field, if any.
pub open spec fn last_ops(fs: Seq<FieldModel>) -> Option<Seq<u8>>
    decreases fs.len(),
{
    if fs.len() == 0 {
        None
    } else if is_ops_name(fs.last().name) {
        Some(fs.last().data)
    } else {
        last_ops(fs.drop_last())
    }
}

/// The last `map` field, if any.
pub open spec fn last_map(fs: Seq<FieldModel>) -> Option<FieldModel>
    decreases fs.len(),
{
    if fs.len() == 0 {
        None
    } else if is_map_name(fs.last().name) {
        Some(fs.last())
    } else {
        last_map(fs.drop_last())
    }
}

/// The file parts, in arrival order.
pub open spec fn file_parts(fs: Seq<FieldModel>) -> Seq<FieldModel>
    decreases fs.len(),
{
    if fs.len() == 0 {
        Seq::empty()
    } else {
        file_parts(fs.drop_last()) + if is_file_part(fs.last()) {
            seq![fs.last()]
        } else {
            Seq::empty()
        }
    }
}

/// Whether the file parts break the configured limits.
pub open spec fn limit_breach(fs: Seq<FieldModel>, limits: Limits) -> bool {
    ||| (limits.max_files matches Some(mx) && file_parts(fs).len() > mx)
    ||| (limits.max_file_size matches Some(mx) && exists|i: int|
        0 <= i < file_parts(fs).len() && file_parts(fs)[i].data.len() > mx)
}

/// The `map` field is decoded as CBOR exactly when that encoding is
/// enabled and the field's content type has essence application/octet-stream.
pub open spec fn map_uses_cbor(ct: Option<Seq<char>>, cbor_enabled: bool) -> bool {
    &&& cbor_enabled
    &&& ct matches Some(s)
    &&& mime_essence_of(s) matches Some(e)
    &&& e.0 == "application"@
    &&& e.1 == "octet-stream"@
}

/// The file map the `map` field decodes to under the selected encoding.
pub open spec fn selected_map_model(mapf: FieldModel, cbor_enabled: bool) -> Option<
    Map<Seq<char>, Seq<Seq<char>>>,
> {
    if map_uses_cbor(mapf.content_type, cbor_enabled) {
        cbor_file_map_of(mapf.data)
    } else {
        json_file_map_of(mapf.data)
    }
}

/// The upload a file part turns into: its content type defaults to
/// application/json when the part declared none.
pub open spec fn upload_of(f: FieldModel) -> UploadModel {
    UploadModel {
        filename: match f.filename {
            Some(n) => n,
            None => Seq::empty(),
        },
        content_type: Some(
            match f.content_type {
                Some(ct) => ct,
                None => "application/json"@,
            },
        ),
        content: f.data,
    }
}

/// Where a binding lands: the lone document of a single-shaped batch, or
/// one element of a batch-shaped one.
pub enum BindTarget {
    Whole,
    Elem(int),
}

/// The path a map entry's path binds at for the given target: the path
/// itself for a single document; for a batch element, the rest of the
/// path when its leading index names that element, and nothing otherwise.
pub open spec fn binds_to(path: Seq<char>, target: BindTarget) -> Option<Seq<char>> {
    match target {
        BindTarget::Whole => Some(path),
        BindTarget::Elem(j) => match split_batch_path(path) {
            Some(ir) => if ir.0 == j {
                Some(ir.1)
            } else {
                None
            },
            None => None,
        },
    }
}

/// The bindings one file part contributes to one target, following its
/// paths in declaration order.
pub open spec fn path_bindings(paths: Seq<Seq<char>>, f: FieldModel, target: BindTarget) -> Seq<
    BindingModel,
>
    decreases paths.len(),
{
    if paths.len() == 0 {
        Seq::empty()
    } else {
        path_bindings(paths.drop_last(), f, target) + match binds_to(paths.last(), target) {
            Some(rest) => seq![BindingModel { path: rest, upload: upload_of(f) }],
            None => Seq::empty(),
        }
    }
}

/// A file part consumes its map entry only when no earlier part bears the
/// same name.
pub open spec fn consumed_here(files: Seq<FieldModel>, i: int) -> bool {
    forall|j: int| 0 <= j < i ==> files[j].name != files[i].name
}

/// All bindings a target receives: file parts in arrival order, each
/// contributing the paths its map entry declares, if it is the first part
/// with that name and the map declares the name at all.
pub open spec fn bound_uploads(
    m0: Map<Seq<char>, Seq<Seq<char>>>,
    files: Seq<FieldModel>,
    target: BindTarget,
) -> Seq<BindingModel>
    decreases files.len(),
{
    if files.len() == 0 {
        Seq::empty()
    } else {
        let i = files.len() - 1;
        bound_uploads(m0, files.drop_last(), target) + if m0.contains_key(files[i].name)
            && consumed_here(files, i) {
            path_bindings(m0[files[i].name], files[i], target)
        } else {
            Seq::empty()
        }
    }
}

/// The names the file parts carry.
pub open spec fn names_of(files: Seq<FieldModel>) -> Set<Seq<char>> {
    Set::new(|k: Seq<char>| exists|i: int| 0 <= i < files.len() && files[i].name == k)
}

/// The batch a successful decode produces.
pub open spec fn batch_outcome(
    ops: OpsModel,
    m0: Map<Seq<char>, Seq<Seq<char>>>,
    files: Seq<FieldModel>,
) -> BatchModel {
    match ops {
        OpsModel::Single(doc) => BatchModel::Single(
            DocModel { operation: doc, uploads: bound_uploads(m0, files, BindTarget::Whole) },
        ),
        OpsModel::Many(docs) => BatchModel::Batch(
            Seq::new(
                docs.len(),
                |j: int|
                    DocModel {
                        operation: docs[j],
                        uploads: bound_uploads(m0, files, BindTarget::Elem(j)),
                    },
            ),
        ),
    }
}

/// The outcome of decoding a multipart request, error precedence
/// included: limits first, then the `operations` field, then the `map`
/// field, then unsatisfied map entries.
pub open spec fn multipart_outcome(
    fs: Seq<FieldModel>,
    limits: Limits,
    cbor_enabled: bool,
) -> Result<BatchModel, DecodeError> {
    if limit_breach(fs, limits) {
        Err(DecodeError::PayloadTooLarge)
    } else {
        match last_ops(fs) {
            None => Err(DecodeError::MissingOperationsPart),
            Some(ops_bytes) => match json_documents_of(ops_bytes) {
                None => Err(DecodeError::MalformedOperations),
                Some(ops) => match last_map(fs) {
                    None => Err(DecodeError::MissingMapPart),
                    Some(mapf) => match selected_map_model(mapf, cbor_enabled) {
                        None => Err(DecodeError::InvalidFilesMap),
                        Some(m0) => {
                            let files = file_parts(fs);
                            if exists|k: Seq<char>|
                                m0.contains_key(k) && !names_of(files).contains(k) {
                                Err(DecodeError::MissingFiles)
                            } else {
                                Ok(batch_outcome(ops, m0, files))
                            }
                        },
                    },
                },
            },
        }
    }
}

proof fn lemma_file_parts_prefix(fs: Seq<FieldModel>, j: int)
    requires
        0 <= j <= fs.len(),
    ensures
        file_parts(fs.take(j)).is_prefix_of(file_parts(fs)),
    decreases fs.len(),
{
    if j == fs.len() {
        assert(fs.take(j) =~= fs);
    } else {
        assert(fs.take(j) =~= fs.drop_last().take(j));
        lemma_file_parts_prefix(fs.drop_last(), j);
    }
}

fn content_type_is_octet_stream(s: &String) -> (r: bool)
    ensures
        r == (mime_essence_of(s@) matches Some(e) && e.0 == "application"@ && e.1
            == "octet-stream"@),
{
    match parse_mime_essence(s) {
        Some(p) => {
            let app: String = "application".to_owned();
            let oct: String = "octet-stream".to_owned();
            p.0.eq(&app) && p.1.eq(&oct)
        },
        None => false,
    }
}

/// Decode a multipart request from its fields, in arrival order.
///
/// The fields may arrive in any order: file parts are collected first and
/// bound only after the `operations` and `map` fields are decoded.
pub fn decode_multipart(fields: &Vec<Field>, config: &MultipartConfig) -> (r: Result<
    Batch,
    DecodeError,
>)
    ensures
        (match multipart_outcome(models(fields@), config.limits, config.cbor_enabled) {
            Ok(bm) => r matches Ok(b) && b.model() == bm,
            Err(e) => r == Err::<Batch, DecodeError>(e),
        }),
{
    let ghost fm = models(fields@);
    let ghost limits = config.limits;
    proof {
        reveal_strlit("operations");
        reveal_strlit("map");
    }
    let ops_lit: String = "operations".to_owned();
    let map_lit: String = "map".to_owned();

    let mut ops_bytes: Option<Vec<u8>> = None;
    let mut map_raw: Option<(Vec<u8>, Option<String>)> = None;
    let mut files: Vec<(String, Upload)> = Vec::new();

    let mut i: usize = 0;
    while i < fields.len()
        invariant
            i <= fields@.len(),
            fm == models(fields@),
            fm.len() == fields@.len(),
            limits == config.limits,
            ops_lit@ == "operations"@,
            map_lit@ == "map"@,
            (match ops_bytes {
                Some(b) => last_ops(fm.take(i as int)) == Some(b@),
                None => last_ops(fm.take(i as int)) is None,
            }),
            (match map_raw {
                Some(p) => last_map(fm.take(i as int)) matches Some(mf) && mf.data == p.0@
                    && mf.content_type == (match p.1 {
                    Some(s) => Some(s@),
                    None => None::<Seq<char>>,
                }),
                None => last_map(fm.take(i as int)) is None,
            }),
            files@.len() == file_parts(fm.take(i as int)).len(),
            files@.len() <= i,
            forall|x: int| #![all_triggers] 0 <= x < files@.len() ==> files@[x].0@ == file_parts(
                fm.take(i as int),
            )[x].name && files@[x].1.model() == upload_of(file_parts(fm.take(i as int))[x]),
            !limit_breach(fm.take(i as int), limits),
        decreases fields@.len() - i,
    {
        let f = &fields[i];
        proof {
            reveal_strlit("operations");
            reveal_strlit("map");
            assert(fm[i as int] == f.model());
            assert(fm.take(i + 1).drop_last() =~= fm.take(i as int));
            assert(fm.take(i + 1).last() == fm[i as int]);
        }
        if f.name.eq(&ops_lit) {
            ops_bytes = Some(f.data.clone());
            proof {
                assert(file_parts(fm.take(i + 1)) =~= file_parts(fm.take(i as int)));
            }
        } else if f.name.eq(&map_lit) {
            let ct = match &f.content_type {
                Some(s) => Some(s.clone()),
                None => None,
            };
            map_raw = Some((f.data.clone(), ct));
            proof {
                assert(file_parts(fm.take(i + 1)) =~= file_parts(fm.take(i as int)));
            }
        } else {
            let named = f.name.as_str().unicode_len() > 0;
            let filename = match &f.filename {
                Some(n) => Some(n.clone()),
                None => None,
            };
            if named && filename.is_some() {
                proof {
                    assert(f.name@.len() > 0);
                    assert(is_file_part(fm[i as int]));
                    assert(file_parts(fm.take(i + 1)) =~= file_parts(fm.take(i as int)) + seq![
                        fm[i as int],
                    ]);
                }
                if let Some(mx) = config.limits.max_files {
                    if files.len() + 1 > mx {
                        proof {
                            lemma_file_parts_prefix(fm, i + 1);
                            assert(file_parts(fm).len() >= file_parts(fm.take(i + 1)).len());
                            assert(limit_breach(fm, limits));
                        }
                        return Err(DecodeError::PayloadTooLarge);
                    }
                }
                if let Some(mx) = config.limits.max_file_size {
                    if f.data.len() > mx {
                        proof {
                            lemma_file_parts_prefix(fm, i + 1);
                            let pref = file_parts(fm.take(i + 1));
                            let n = pref.len() as int;
                            assert(pref[n - 1] == fm[i as int]);
                            assert(pref == file_parts(fm).subrange(0, n));
                            assert(file_parts(fm)[n - 1] == fm[i as int]);
                            assert(file_parts(fm)[n - 1].data.len() > mx);
                            assert(limit_breach(fm, limits));
                        }
                        return Err(DecodeError::PayloadTooLarge);
                    }
                }
                let ct = match &f.content_type {
                    Some(s) => s.clone(),
                    None => "application/json".to_owned(),
                };
                let upload = Upload {
                    filename: match filename {
                        Some(n) => n,
                        None => String::new(),
                    },
                    content_type: Some(ct),
                    content: f.data.clone(),
                };
                proof {
                    assert(upload.model() =~= upload_of(fm[i as int]));
                }
                files.push((f.name.clone(), upload));
            } else {
                proof {
                    assert(!is_file_part(fm[i as int]));
                    assert(file_parts(fm.take(i + 1)) =~= file_parts(fm.take(i as int)));
                }
            }
        }
        i += 1;
    }
    proof {
        assert(fm.take(fm.len() as int) =~= fm);
    }

    let ops = match ops_bytes {
        Some(b) => b,
        None => {
            return Err(DecodeError::MissingOperationsPart);
        },
    };
    let raw = match parse_operations_json(&ops) {
        Some(r) => r,
        None => {
            return Err(DecodeError::MalformedOperations);
        },
    };
    let (map_bytes, map_ct) = match map_raw {
        Some(p) => p,
        None => {
            return Err(DecodeError::MissingMapPart);
        },
    };
    let use_cbor = config.cbor_enabled && (match &map_ct {
        Some(s) => content_type_is_octet_stream(s),
        None => false,
    });
    proof {
        assert(use_cbor == map_uses_cbor(
            last_map(fm)->Some_0.content_type,
            config.cbor_enabled,
        ));
    }
    let mut fmap = match (if use_cbor {
        parse_file_map_cbor(&map_bytes)
    } else {
        parse_file_map_json(&map_bytes)
    }) {
        Some(m) => m,
        None => {
            return Err(DecodeError::InvalidFilesMap);
        },
    };
    let ghost m0 = fmap.as_map();
    let ghost fparts = file_parts(fm);

    let batch = match raw {
        RawOps::Single(doc_bytes) => {
            let mut doc = Doc { operation: doc_bytes, uploads: Vec::new() };
            proof {
                assert(doc.model().uploads =~= bound_uploads(
                    m0,
                    fparts.take(0),
                    BindTarget::Whole,
                ));
            }
            bind_single(&mut doc, &mut fmap, &files, Ghost(m0), Ghost(fparts));
            Batch::Single(doc)
        },
        RawOps::Many(docs_bytes) => {
            let mut docs: Vec<Doc> = Vec::new();
            let mut d: usize = 0;
            while d < docs_bytes.len()
                invariant
                    d <= docs_bytes@.len(),
                    docs@.len() == d,
                    forall|x: int| #![all_triggers] 0 <= x < d ==> docs@[x].operation@
                        == docs_bytes@[x]@ && docs@[x].uploads@.len() == 0,
                decreases docs_bytes@.len() - d,
            {
                docs.push(Doc { operation: docs_bytes[d].clone(), uploads: Vec::new() });
                d += 1;
            }
            let ghost docs_pre = docs@;
            bind_batch(&mut docs, &mut fmap, &files, Ghost(m0), Ghost(fparts));
            proof {
                let dv = docs_bytes.deep_view();
                let target = Seq::new(
                    dv.len(),
                    |j: int|
                        DocModel {
                            operation: dv[j],
                            uploads: bound_uploads(m0, fparts, BindTarget::Elem(j)),
                        },
                );
                assert forall|j: int| 0 <= j < dv.len() implies docs@.map_values(
                    |dd: Doc| dd.model(),
                )[j] == target[j] by {
                    assert(docs@[j].operation == docs_pre[j].operation);
                    assert(docs_pre[j].operation@ == docs_bytes@[j]@);
                    assert(dv[j] =~= docs_bytes@[j]@);
                    assert(docs@[j].model().operation == dv[j]);
                    assert(docs@[j].model().uploads == bound_uploads(
                        m0,
                        fparts,
                        BindTarget::Elem(j),
                    ));
                }
                assert(docs@.map_values(|dd: Doc| dd.model()) =~= target);
            }
            Batch::Batch(docs)
        },
    };

    if !fmap.is_empty() {
        proof {
            let leftover = fmap.as_map();
            if forall|k: Seq<char>| !(#[trigger] leftover.contains_key(k)) {
                assert(leftover =~= Map::<Seq<char>, Seq<Seq<char>>>::empty());
            }
            let k = choose|k: Seq<char>| leftover.contains_key(k);
            assert(m0.contains_key(k) && !names_of(fparts).contains(k));
        }
        return Err(DecodeError::MissingFiles);
    }
    proof {
        if exists|k: Seq<char>| m0.contains_key(k) && !names_of(fparts).contains(k) {
            let k = choose|k: Seq<char>| m0.contains_key(k) && !names_of(fparts).contains(k);
            assert(fmap.as_map().contains_key(k));
        }
    }
    Ok(batch)
}

/// Bind every file part into the lone document of a single-shaped batch.
fn bind_single(
    doc: &mut Doc,
    fmap: &mut FileMap,
    files: &Vec<(String, Upload)>,
    Ghost(m0): Ghost<Map<Seq<char>, Seq<Seq<char>>>>,
    Ghost(fparts): Ghost<Seq<FieldModel>>,
)
    requires
        old(fmap).wf(),
        old(fmap).as_map() == m0,
        files@.len() == fparts.len(),
        forall|x: int| #![all_triggers] 0 <= x < files@.len() ==> files@[x].0@ == fparts[x].name
            && files@[x].1.model() == upload_of(fparts[x]),
        old(doc).uploads@.map_values(|b: Binding| b.model()) == bound_uploads(
            m0,
            fparts.take(0),
            BindTarget::Whole,
        ),
    ensures
        final(fmap).wf(),
        final(fmap).as_map() == m0.remove_keys(names_of(fparts)),
        final(doc).operation == old(doc).operation,
        final(doc).uploads@.map_values(|b: Binding| b.model()) == bound_uploads(
            m0,
            fparts,
            BindTarget::Whole,
        ),
{
    let mut fi: usize = 0;
    proof {
        assert(fmap.as_map() =~= m0.remove_keys(names_of(fparts.take(0))));
    }
    while fi < files.len()
        invariant
            fi <= files@.len(),
            files@.len() == fparts.len(),
            forall|x: int| #![all_triggers] 0 <= x < files@.len() ==> files@[x].0@
                == fparts[x].name && files@[x].1.model() == upload_of(fparts[x]),
            fmap.wf(),
            fmap.as_map() == m0.remove_keys(names_of(fparts.take(fi as int))),
            doc.operation == old(doc).operation,
            doc.uploads@.map_values(|b: Binding| b.model()) == bound_uploads(
                m0,
                fparts.take(fi as int),
                BindTarget::Whole,
            ),
        decreases files@.len() - fi,
    {
        let name = &files[fi].0;
        proof {
            assert(fparts.take(fi + 1).drop_last() =~= fparts.take(fi as int));
            assert(fparts.take(fi + 1).last() == fparts[fi as int]);
            assert(name@ == fparts[fi as int].name);
            if !consumed_here(fparts, fi as int) {
                let j = choose|j: int| 0 <= j < fi as int && fparts[j].name == fparts[
                    fi as int
                ].name;
                assert(fparts.take(fi as int)[j].name == name@);
                assert(names_of(fparts.take(fi as int)).contains(name@));
            }
            if names_of(fparts.take(fi as int)).contains(name@) {
                let x = choose|x: int|
                    0 <= x < fparts.take(fi as int).len() && fparts.take(fi as int)[x].name
                        == name@;
                assert(fparts[x].name == fparts[fi as int].name);
                assert(!consumed_here(fparts, fi as int));
            }
            assert(names_of(fparts.take(fi as int)).contains(name@) <==> !consumed_here(
                fparts,
                fi as int,
            ));
            assert(consumed_here(fparts, fi as int) == consumed_here(
                fparts.take(fi + 1),
                fi as int,
            ));
        }
        match fmap.remove(name) {
            Some(paths) => {
                let ghost pm = paths.deep_view();
                proof {
                    assert(pm == m0[name@]);
                }
                let mut pi: usize = 0;
                proof {
                    assert(path_bindings(pm.take(0), fparts[fi as int], BindTarget::Whole)
                        =~= Seq::<BindingModel>::empty());
                    assert(doc.uploads@.map_values(|b: Binding| b.model()) =~= bound_uploads(
                        m0,
                        fparts.take(fi as int),
                        BindTarget::Whole,
                    ) + path_bindings(pm.take(0), fparts[fi as int], BindTarget::Whole));
                }
                while pi < paths.len()
                    invariant
                        pi <= paths@.len(),
                        pm == paths.deep_view(),
                        pm.len() == paths@.len(),
                        0 <= fi < fparts.len(),
                        files@.len() == fparts.len(),
                        forall|x: int| #![all_triggers] 0 <= x < files@.len() ==> files@[x].0@
                            == fparts[x].name && files@[x].1.model() == upload_of(fparts[x]),
                        doc.operation == old(doc).operation,
                        doc.uploads@.map_values(|b: Binding| b.model()) == bound_uploads(
                            m0,
                            fparts.take(fi as int),
                            BindTarget::Whole,
                        ) + path_bindings(pm.take(pi as int), fparts[fi as int], BindTarget::Whole),
                    decreases paths@.len() - pi,
                {
                    proof {
                        assert(pm.take(pi + 1).drop_last() =~= pm.take(pi as int));
                        assert(pm.take(pi + 1).last() == pm[pi as int]);
                        assert(pm[pi as int] == paths@[pi as int]@);
                    }
                    let b = Binding { path: paths[pi].clone(), upload: files[fi].1.duplicate() };
                    proof {
                        assert(b.model() == BindingModel {
                            path: pm[pi as int],
                            upload: upload_of(fparts[fi as int]),
                        });
                    }
                    let ghost ups0 = doc.uploads@;
                    doc.uploads.push(b);
                    proof {
                        let bm = BindingModel {
                            path: pm[pi as int],
                            upload: upload_of(fparts[fi as int]),
                        };
                        assert(binds_to(pm[pi as int], BindTarget::Whole) == Some(pm[pi as int]));
                        assert(path_bindings(pm.take(pi + 1), fparts[fi as int], BindTarget::Whole)
                            == path_bindings(pm.take(pi as int), fparts[fi as int], BindTarget::Whole)
                            + seq![bm]);
                        assert(doc.uploads@ == ups0.push(b));
                        assert(doc.uploads@.map_values(|bb: Binding| bb.model()) =~= ups0.map_values(
                            |bb: Binding| bb.model(),
                        ) + seq![bm]);
                        assert(doc.uploads@.map_values(|bb: Binding| bb.model()) =~= bound_uploads(
                            m0,
                            fparts.take(fi as int),
                            BindTarget::Whole,
                        ) + path_bindings(pm.take(pi + 1), fparts[fi as int], BindTarget::Whole));
                    }
                    pi += 1;
                }
                proof {
                    assert(pm.take(pm.len() as int) =~= pm);
                    assert(names_of(fparts.take(fi + 1)) =~= names_of(
                        fparts.take(fi as int),
                    ).insert(name@));
                    assert(fmap.as_map() =~= m0.remove_keys(names_of(fparts.take(fi + 1))));
                    assert(bound_uploads(m0, fparts.take(fi + 1), BindTarget::Whole)
                        =~= bound_uploads(m0, fparts.take(fi as int), BindTarget::Whole) + path_bindings(
                        pm,
                        fparts[fi as int],
                        BindTarget::Whole,
                    ));
                }
            },
            None => {
                proof {
                    assert(names_of(fparts.take(fi + 1)) =~= names_of(
                        fparts.take(fi as int),
                    ).insert(name@));
                    assert(fmap.as_map() =~= m0.remove_keys(names_of(fparts.take(fi + 1))));
                    assert(bound_uploads(m0, fparts.take(fi + 1), BindTarget::Whole)
                        =~= bound_uploads(m0, fparts.take(fi as int), BindTarget::Whole));
                }
            },
        }
        fi += 1;
    }
    proof {
        assert(fparts.take(fparts.len() as int) =~= fparts);
    }
}

/// Bind every file part into the elements of a batch-shaped batch,
/// skipping paths whose index does not parse or is out of range.
fn bind_batch(
    docs: &mut Vec<Doc>,
    fmap: &mut FileMap,
    files: &Vec<(String, Upload)>,
    Ghost(m0): Ghost<Map<Seq<char>, Seq<Seq<char>>>>,
    Ghost(fparts): Ghost<Seq<FieldModel>>,
)
    requires
        old(fmap).wf(),
        old(fmap).as_map() == m0,
        files@.len() == fparts.len(),
        forall|x: int| #![all_triggers] 0 <= x < files@.len() ==> files@[x].0@ == fparts[x].name
            && files@[x].1.model() == upload_of(fparts[x]),
        forall|j: int| #![all_triggers] 0 <= j < old(docs)@.len() ==> old(docs)@[j].uploads@.len()
            == 0,
    ensures
        final(fmap).wf(),
        final(fmap).as_map() == m0.remove_keys(names_of(fparts)),
        final(docs)@.len() == old(docs)@.len(),
        forall|j: int| #![all_triggers] 0 <= j < old(docs)@.len() ==> final(docs)@[j].operation
            == old(docs)@[j].operation && final(docs)@[j].uploads@.map_values(
            |b: Binding| b.model(),
        ) == bound_uploads(m0, fparts, BindTarget::Elem(j)),
{
    let ghost docs0 = docs@;
    let mut fi: usize = 0;
    proof {
        assert(fmap.as_map() =~= m0.remove_keys(names_of(fparts.take(0))));
        assert forall|j: int| 0 <= j < docs0.len() implies docs@[j].uploads@.map_values(
            |b: Binding| b.model(),
        ) =~= bound_uploads(m0, fparts.take(0), BindTarget::Elem(j)) by {
            assert(docs@[j].uploads@.len() == 0);
        }
    }
    while fi < files.len()
        invariant
            fi <= files@.len(),
            files@.len() == fparts.len(),
            forall|x: int| #![all_triggers] 0 <= x < files@.len() ==> files@[x].0@
                == fparts[x].name && files@[x].1.model() == upload_of(fparts[x]),
            fmap.wf(),
            fmap.as_map() == m0.remove_keys(names_of(fparts.take(fi as int))),
            docs@.len() == docs0.len(),
            forall|j: int| #![all_triggers] 0 <= j < docs0.len() ==> docs@[j].operation
                == docs0[j].operation && docs@[j].uploads@.map_values(|b: Binding| b.model())
                == bound_uploads(m0, fparts.take(fi as int), BindTarget::Elem(j)),
        decreases files@.len() - fi,
    {
        let name = &files[fi].0;
        proof {
            assert(fparts.take(fi + 1).drop_last() =~= fparts.take(fi as int));
            assert(fparts.take(fi + 1).last() == fparts[fi as int]);
            assert(name@ == fparts[fi as int].name);
            if !consumed_here(fparts, fi as int) {
                let j = choose|j: int| 0 <= j < fi as int && fparts[j].name == fparts[
                    fi as int
                ].name;
                assert(fparts.take(fi as int)[j].name == name@);
                assert(names_of(fparts.take(fi as int)).contains(name@));
            }
            if names_of(fparts.take(fi as int)).contains(name@) {
                let x = choose|x: int|
                    0 <= x < fparts.take(fi as int).len() && fparts.take(fi as int)[x].name
                        == name@;
                assert(fparts[x].name == fparts[fi as int].name);
                assert(!consumed_here(fparts, fi as int));
            }
            assert(names_of(fparts.take(fi as int)).contains(name@) <==> !consumed_here(
                fparts,
                fi as int,
            ));
            assert(consumed_here(fparts, fi as int) == consumed_here(
                fparts.take(fi + 1),
                fi as int,
            ));
            assert(names_of(fparts.take(fi + 1)) =~= names_of(fparts.take(fi as int)).insert(
                name@,
            ));
        }
        match fmap.remove(name) {
            Some(paths) => {
                let ghost pm = paths.deep_view();
                proof {
                    assert(pm == m0[name@]);
                }
                let mut pi: usize = 0;
                proof {
                    assert forall|j: int| 0 <= j < docs0.len() implies path_bindings(
                        pm.take(0),
                        fparts[fi as int],
                        BindTarget::Elem(j),
                    ) =~= Seq::<BindingModel>::empty() by {}
                }
                while pi < paths.len()
                    invariant
                        pi <= paths@.len(),
                        pm == paths.deep_view(),
                        pm.len() == paths@.len(),
                        0 <= fi < fparts.len(),
                        files@.len() == fparts.len(),
                        forall|x: int| #![all_triggers] 0 <= x < files@.len() ==> files@[x].0@
                            == fparts[x].name && files@[x].1.model() == upload_of(fparts[x]),
                        docs@.len() == docs0.len(),
                        forall|j: int| #![all_triggers] 0 <= j < docs0.len() ==> docs@[j].operation
                            == docs0[j].operation && docs@[j].uploads@.map_values(
                            |b: Binding| b.model(),
                        ) == bound_uploads(m0, fparts.take(fi as int), BindTarget::Elem(j))
                            + path_bindings(pm.take(pi as int), fparts[fi as int], BindTarget::Elem(j)),
                    decreases paths@.len() - pi,
                {
                    proof {
                        assert(pm.take(pi + 1).drop_last() =~= pm.take(pi as int));
                        assert(pm.take(pi + 1).last() == pm[pi as int]);
                        assert(pm[pi as int] == paths@[pi as int]@);
                    }
                    match split_index_path(paths[pi].as_str()) {
                        Some(ir) => {
                            let (idx, rest) = ir;
                            proof {
                                assert(split_batch_path(pm[pi as int]) == Some(
                                    (idx as int, rest@),
                                ));
                            }
                            if idx < docs.len() {
                                let ghost pre = docs@;
                                let mut d = docs.remove(idx);
                                let ghost dups0 = d.uploads@;
                                let b = Binding { path: rest, upload: files[fi].1.duplicate() };
                                d.uploads.push(b);
                                docs.insert(idx, d);
                                proof {
                                    let bm = BindingModel {
                                        path: split_batch_path(pm[pi as int])->Some_0.1,
                                        upload: upload_of(fparts[fi as int]),
                                    };
                                    assert(b.model() == bm);
                                    assert(docs@ =~= pre.update(idx as int, d));
                                    assert(d.uploads@ == dups0.push(b));
                                    assert forall|j: int| 0 <= j < docs0.len() implies docs@[j]
                                        .uploads@.map_values(|bb: Binding| bb.model())
                                        == bound_uploads(
                                        m0,
                                        fparts.take(fi as int),
                                        BindTarget::Elem(j),
                                    ) + path_bindings(
                                        pm.take(pi + 1),
                                        fparts[fi as int],
                                        BindTarget::Elem(j),
                                    ) by {
                                        let prev = bound_uploads(
                                            m0,
                                            fparts.take(fi as int),
                                            BindTarget::Elem(j),
                                        );
                                        let pbj = path_bindings(
                                            pm.take(pi as int),
                                            fparts[fi as int],
                                            BindTarget::Elem(j),
                                        );
                                        if j == idx as int {
                                            assert(binds_to(pm[pi as int], BindTarget::Elem(j))
                                                == Some(bm.path));
                                            assert(path_bindings(
                                                pm.take(pi + 1),
                                                fparts[fi as int],
                                                BindTarget::Elem(j),
                                            ) == pbj + seq![bm]);
                                            assert(docs@[j] == d);
                                            assert(d.uploads@.map_values(|bb: Binding| bb.model())
                                                =~= dups0.map_values(|bb: Binding| bb.model())
                                                + seq![bm]);
                                            assert(dups0.map_values(|bb: Binding| bb.model())
                                                == prev + pbj);
                                            assert((prev + pbj) + seq![bm] =~= prev + (pbj + seq![
                                                bm,
                                            ]));
                                        } else {
                                            assert(binds_to(pm[pi as int], BindTarget::Elem(j))
                                                is None);
                                            assert(path_bindings(
                                                pm.take(pi + 1),
                                                fparts[fi as int],
                                                BindTarget::Elem(j),
                                            ) =~= pbj);
                                            assert(docs@[j] == pre[j]);
                                        }
                                    }
                                }
                            } else {
                                proof {
                                    assert forall|j: int| 0 <= j < docs0.len() implies docs@[j]
                                        .uploads@.map_values(|bb: Binding| bb.model())
                                        == bound_uploads(
                                        m0,
                                        fparts.take(fi as int),
                                        BindTarget::Elem(j),
                                    ) + path_bindings(
                                        pm.take(pi + 1),
                                        fparts[fi as int],
                                        BindTarget::Elem(j),
                                    ) by {
                                        assert(j < idx as int);
                                        assert(binds_to(pm[pi as int], BindTarget::Elem(j))
                                            is None);
                                        assert(path_bindings(
                                            pm.take(pi + 1),
                                            fparts[fi as int],
                                            BindTarget::Elem(j),
                                        ) =~= path_bindings(
                                            pm.take(pi as int),
                                            fparts[fi as int],
                                            BindTarget::Elem(j),
                                        ));
                                    }
                                }
                            }
                        },
                        None => {
                            proof {
                                assert(split_batch_path(pm[pi as int]) is None);
                                assert forall|j: int| 0 <= j < docs0.len() implies docs@[j].uploads@
                                    .map_values(|bb: Binding| bb.model()) == bound_uploads(
                                    m0,
                                    fparts.take(fi as int),
                                    BindTarget::Elem(j),
                                ) + path_bindings(
                                    pm.take(pi + 1),
                                    fparts[fi as int],
                                    BindTarget::Elem(j),
                                ) by {
                                    assert(binds_to(pm[pi as int], BindTarget::Elem(j)) is None);
                                    assert(path_bindings(
                                        pm.take(pi + 1),
                                        fparts[fi as int],
                                        BindTarget::Elem(j),
                                    ) =~= path_bindings(
                                        pm.take(pi as int),
                                        fparts[fi as int],
                                        BindTarget::Elem(j),
                                    ));
                                }
                            }
                        },
                    }
                    pi += 1;
                }
                proof {
                    assert(pm.take(pm.len() as int) =~= pm);
                    assert(fmap.as_map() =~= m0.remove_keys(names_of(fparts.take(fi + 1))));
                    assert forall|j: int| 0 <= j < docs0.len() implies bound_uploads(
                        m0,
                        fparts.take(fi + 1),
                        BindTarget::Elem(j),
                    ) =~= bound_uploads(m0, fparts.take(fi as int), BindTarget::Elem(j)) + path_bindings(
                        pm,
                        fparts[fi as int],
                        BindTarget::Elem(j),
                    ) by {}
                }
            },
            None => {
                proof {
                    assert(fmap.as_map() =~= m0.remove_keys(names_of(fparts.take(fi + 1))));
                    assert forall|j: int| 0 <= j < docs0.len() implies bound_uploads(
                        m0,
                        fparts.take(fi + 1),
                        BindTarget::Elem(j),
                    ) =~= bound_uploads(m0, fparts.take(fi as int), BindTarget::Elem(j)) by {}
                }
            },
        }
        fi += 1;
    }
    proof {
        assert(fparts.take(fparts.len() as int) =~= fparts);
    }
}

} // verus!
