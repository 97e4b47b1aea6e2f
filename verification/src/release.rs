//! Releases: what the release service answers, and which of a release's files is which.
use crate::paths::{
    extension, extension_of, file_name_of, is_file_name, lemma_after_last, lemma_last_is,
    lemma_plain_name, prefix_len, stem_len,
};
use crate::text::{
    after_last, cat, contains, has_part, lemma_same_lower, lower, occurs_at, opt_text, same,
    same_ignoring_case, same_letter, same_name, to_lower, CharClass,
};
use vstd::prelude::*;

verus! {

/// What is reported of an answer that is no JSON document.
pub const BAD_DOCUMENT: &'static str = "error decoding response body";

/// A file of a release.
pub struct ReleaseAsset {
    pub name: String,
    pub url: String,
    pub digest: Option<String>,
}

/// A release.
pub struct ReleaseInfo {
    pub tag: String,
    pub assets: Vec<ReleaseAsset>,
}

/// What a file of a release is.
#[verifier::ext_equal]
pub struct AssetModel {
    pub name: Seq<char>,
    pub url: Seq<char>,
    pub digest: Option<Seq<char>>,
}

/// What a release is.
#[verifier::ext_equal]
pub struct ReleaseModel {
    pub tag: Seq<char>,
    pub assets: Seq<AssetModel>,
}

impl View for ReleaseAsset {
    type V = AssetModel;

    open spec fn view(&self) -> AssetModel {
        AssetModel { name: self.name@, url: self.url@, digest: opt_text(self.digest) }
    }
}

impl View for ReleaseInfo {
    type V = ReleaseModel;

    open spec fn view(&self) -> ReleaseModel {
        ReleaseModel {
            tag: self.tag@,
            assets: self.assets@.map_values(|asset: ReleaseAsset| asset@),
        }
    }
}

impl Clone for ReleaseAsset {
    fn clone(&self) -> (r: Self)
        ensures
            r@ == self@,
    {
        ReleaseAsset {
            name: self.name.clone(),
            url: self.url.clone(),
            digest: match &self.digest {
                Some(digest) => Some(digest.clone()),
                None => None,
            },
        }
    }
}

/// The outermost level of a JSON document; what is inside it is JSON again.
pub enum JsonShape {
    Text(String),
    List(Vec<Vec<u8>>),
    Object(Vec<(String, Vec<u8>)>),
    /// A number, a truth value or null.
    Other,
}

/// What the outermost level of a JSON document is.
#[verifier::ext_equal]
pub enum ShapeModel {
    Text(Seq<char>),
    List(Seq<Seq<u8>>),
    Object(Seq<(Seq<char>, Seq<u8>)>),
    Other,
}

impl View for JsonShape {
    type V = ShapeModel;

    open spec fn view(&self) -> ShapeModel {
        match self {
            JsonShape::Text(text) => ShapeModel::Text(text@),
            JsonShape::List(items) => ShapeModel::List(items@.map_values(|item: Vec<u8>| item@)),
            JsonShape::Object(members) => ShapeModel::Object(
                members@.map_values(|member: (String, Vec<u8>)| (member.0@, member.1@)),
            ),
            JsonShape::Other => ShapeModel::Other,
        }
    }
}

/// The outermost level of the JSON document in `body`, where it is one.
pub uninterp spec fn json_shape(body: Seq<u8>) -> Option<ShapeModel>;

/// `serde_json::from_slice` to a `serde_json::Value`: whether the bytes are a JSON document, and
/// what its outermost level is, depends on the bytes alone. The values inside a list and the
/// members of an object are written out as JSON again, members in the order of the value's map,
/// each key once. That reading one of them gives the value that it was written from is not stated.
#[verifier::external_body]
fn read_json(body: &Vec<u8>) -> (r: Option<JsonShape>)
    ensures
        match r {
            Some(shape) => json_shape(body@) == Some(shape@),
            None => json_shape(body@) is None,
        },
{
    match serde_json::from_slice::<serde_json::Value>(body.as_slice()) {
        Ok(serde_json::Value::String(text)) => Some(JsonShape::Text(text)),
        Ok(serde_json::Value::Array(items)) => Some(
            JsonShape::List(items.iter().map(|item| item.to_string().into_bytes()).collect()),
        ),
        Ok(serde_json::Value::Object(members)) => Some(
            JsonShape::Object(
                members.into_iter().map(|(key, item)| (key, item.to_string().into_bytes())).collect(),
            ),
        ),
        Ok(_) => Some(JsonShape::Other),
        Err(_) => None,
    }
}

/// What a release document says of one of its files; `None` for what it leaves out or says in
/// another form.
pub struct AssetDocument {
    pub name: Option<String>,
    pub browser_download_url: Option<String>,
    pub digest: Option<String>,
}

/// What a release document says; `None` for what it leaves out or says in another form.
pub struct ReleaseDocument {
    pub tag_name: Option<String>,
    pub assets: Option<Vec<AssetDocument>>,
}

/// What a document says of a file.
#[verifier::ext_equal]
pub struct AssetText {
    pub name: Option<Seq<char>>,
    pub browser_download_url: Option<Seq<char>>,
    pub digest: Option<Seq<char>>,
}

/// What a document says of a release.
#[verifier::ext_equal]
pub struct ReleaseText {
    pub tag_name: Option<Seq<char>>,
    pub assets: Option<Seq<AssetText>>,
}

impl View for AssetDocument {
    type V = AssetText;

    open spec fn view(&self) -> AssetText {
        AssetText {
            name: opt_text(self.name),
            browser_download_url: opt_text(self.browser_download_url),
            digest: opt_text(self.digest),
        }
    }
}

/// What a list of documents says of files.
pub open spec fn asset_texts(list: Seq<AssetDocument>) -> Seq<AssetText> {
    list.map_values(|asset: AssetDocument| asset@)
}

impl View for ReleaseDocument {
    type V = ReleaseText;

    open spec fn view(&self) -> ReleaseText {
        ReleaseText {
            tag_name: opt_text(self.tag_name),
            assets: match self.assets {
                Some(list) => Some(asset_texts(list@)),
                None => None,
            },
        }
    }
}

/// The member of an object under the given key, as JSON.
pub open spec fn find_member(members: Seq<(Seq<char>, Seq<u8>)>, key: Seq<char>) -> Option<Seq<u8>>
    decreases members.len(),
{
    if members.len() == 0 {
        None
    } else if members[0].0 == key {
        Some(members[0].1)
    } else {
        find_member(members.drop_first(), key)
    }
}

/// The member of a document under the given key, as JSON; only objects have members.
pub open spec fn member_of(shape: Option<ShapeModel>, key: Seq<char>) -> Option<Seq<u8>> {
    match shape {
        Some(ShapeModel::Object(members)) => find_member(members, key),
        _ => None,
    }
}

/// The member of a document under the given key, where it is a text.
pub open spec fn text_member(shape: Option<ShapeModel>, key: Seq<char>) -> Option<Seq<char>> {
    match member_of(shape, key) {
        Some(json) => match json_shape(json) {
            Some(ShapeModel::Text(text)) => Some(text),
            _ => None,
        },
        None => None,
    }
}

/// What a document says of a file.
pub open spec fn asset_text(shape: Option<ShapeModel>) -> AssetText {
    AssetText {
        name: text_member(shape, "name"@),
        browser_download_url: text_member(shape, "browser_download_url"@),
        digest: text_member(shape, "digest"@),
    }
}

/// What a document says of a release.
pub open spec fn release_text(shape: Option<ShapeModel>) -> ReleaseText {
    ReleaseText {
        tag_name: text_member(shape, "tag_name"@),
        assets: match member_of(shape, "assets"@) {
            Some(json) => match json_shape(json) {
                Some(ShapeModel::List(items)) => Some(
                    items.map_values(|item: Seq<u8>| asset_text(json_shape(item))),
                ),
                _ => None,
            },
            None => None,
        },
    }
}

/// The files that a document names and gives an address of; others are left out.
pub open spec fn listed_assets(list: Seq<AssetText>) -> Seq<AssetModel>
    decreases list.len(),
{
    if list.len() == 0 {
        Seq::empty()
    } else {
        let before = listed_assets(list.drop_last());
        match (list.last().name, list.last().browser_download_url) {
            (Some(name), Some(url)) => before.push(
                AssetModel { name, url, digest: list.last().digest },
            ),
            _ => before,
        }
    }
}

/// The release that a document describes, or what it lacks.
pub open spec fn described_release(doc: ReleaseText) -> Result<ReleaseModel, Seq<char>> {
    match (doc.tag_name, doc.assets) {
        (None, _) => Err("tag_name не найден"@),
        (_, None) => Err("assets не найден"@),
        (Some(tag), Some(list)) => Ok(ReleaseModel { tag, assets: listed_assets(list) }),
    }
}

/// What an attempt to get a release gave.
pub open spec fn release_result(r: Result<ReleaseInfo, String>) -> Result<ReleaseModel, Seq<char>> {
    match r {
        Ok(release) => Ok(release@),
        Err(message) => Err(message@),
    }
}

/// What the outermost level of a document is, where it is one.
pub open spec fn opt_shape(shape: Option<JsonShape>) -> Option<ShapeModel> {
    match shape {
        Some(shape) => Some(shape@),
        None => None,
    }
}

/// The member of a document under the given key, as JSON; only objects have members.
pub fn member<'a>(shape: &'a Option<JsonShape>, key: &str) -> (r: Option<&'a Vec<u8>>)
    ensures
        match r {
            Some(json) => member_of(opt_shape(*shape), key@) == Some(json@),
            None => member_of(opt_shape(*shape), key@) is None,
        },
{
    match shape {
        Some(JsonShape::Object(members)) => {
            let ghost all = members@.map_values(|member: (String, Vec<u8>)| (member.0@, member.1@));
            assert(all.skip(0) =~= all);
            let mut i: usize = 0;
            while i < members.len()
                invariant
                    i <= members.len(),
                    all == members@.map_values(
                        |member: (String, Vec<u8>)| (member.0@, member.1@),
                    ),
                    find_member(all, key@) == find_member(all.skip(i as int), key@),
                    *shape == Some(JsonShape::Object(*members)),
                decreases members.len() - i,
            {
                assert(all.skip(i as int)[0] == (members@[i as int].0@, members@[i as int].1@));
                if same(members[i].0.as_str(), key) {
                    return Some(&members[i].1);
                }
                assert(all.skip(i as int).drop_first() =~= all.skip(i + 1));
                i = i + 1;
            }
            None
        },
        _ => None,
    }
}

/// The member of a document under the given key, where it is a text.
fn member_text(shape: &Option<JsonShape>, key: &str) -> (r: Option<String>)
    ensures
        opt_text(r) == text_member(opt_shape(*shape), key@),
{
    match member(shape, key) {
        Some(json) => match read_json(json) {
            Some(JsonShape::Text(text)) => Some(text),
            _ => None,
        },
        None => None,
    }
}

/// What the document in `body` says of a file.
fn read_asset(body: &Vec<u8>) -> (r: AssetDocument)
    ensures
        r@ == asset_text(json_shape(body@)),
{
    let shape = read_json(body);
    AssetDocument {
        name: member_text(&shape, "name"),
        browser_download_url: member_text(&shape, "browser_download_url"),
        digest: member_text(&shape, "digest"),
    }
}

/// What the JSON document in `body` says of a release; `None` where it is no JSON document.
pub fn read_release_document(body: &Vec<u8>) -> (r: Option<ReleaseDocument>)
    ensures
        match r {
            Some(doc) => json_shape(body@) is Some && doc@ == release_text(json_shape(body@)),
            None => json_shape(body@) is None,
        },
{
    let shape = read_json(body);
    if shape.is_none() {
        return None;
    }
    let tag_name = member_text(&shape, "tag_name");
    let assets = match member(&shape, "assets") {
        Some(json) => match read_json(json) {
            Some(JsonShape::List(items)) => {
                let mut list: Vec<AssetDocument> = Vec::new();
                let ghost all = items@.map_values(|item: Vec<u8>| item@);
                let ghost wanted = all.map_values(|item: Seq<u8>| asset_text(json_shape(item)));
                let mut i: usize = 0;
                while i < items.len()
                    invariant
                        i <= items.len(),
                        all == items@.map_values(|item: Vec<u8>| item@),
                        wanted == all.map_values(|item: Seq<u8>| asset_text(json_shape(item))),
                        asset_texts(list@) =~= wanted.take(i as int),
                    decreases items.len() - i,
                {
                    let asset = read_asset(&items[i]);
                    assert(wanted.take(i + 1) =~= wanted.take(i as int).push(asset@));
                    list.push(asset);
                    i = i + 1;
                }
                assert(wanted.take(items@.len() as int) =~= wanted);
                Some(list)
            },
            _ => None,
        },
        None => None,
    };
    Some(ReleaseDocument { tag_name, assets })
}

/// The release that a document describes, or what it lacks.
pub fn release_from_document(doc: ReleaseDocument) -> (r: Result<ReleaseInfo, String>)
    ensures
        release_result(r) == described_release(doc@),
{
    let tag = match doc.tag_name {
        Some(tag) => tag,
        None => {
            return Err("tag_name не найден".to_owned());
        },
    };
    let list = match doc.assets {
        Some(list) => list,
        None => {
            return Err("assets не найден".to_owned());
        },
    };
    let mut assets: Vec<ReleaseAsset> = Vec::new();
    let ghost all = asset_texts(list@);
    let mut i: usize = 0;
    while i < list.len()
        invariant
            i <= list.len(),
            all == asset_texts(list@),
            assets@.map_values(|asset: ReleaseAsset| asset@) =~= listed_assets(
                all.take(i as int),
            ),
        decreases list.len() - i,
    {
        let ghost seen = all.take(i + 1);
        assert(seen.drop_last() =~= all.take(i as int));
        assert(seen.last() == list@[i as int]@);
        if let (Some(name), Some(url)) = (&list[i].name, &list[i].browser_download_url) {
            let digest = match &list[i].digest {
                Some(digest) => Some(digest.clone()),
                None => None,
            };
            assets.push(ReleaseAsset { name: name.clone(), url: url.clone(), digest });
        }
        i = i + 1;
    }
    assert(all.take(list@.len() as int) =~= all);
    Ok(ReleaseInfo { tag, assets })
}

/// What a request over HTTP gave.
pub enum HttpReply {
    /// No answer, and why.
    Failed(String),
    /// An answer: whether its status is one of success, the status in words, and the body, or why
    /// it could not be read.
    Answered { success: bool, status: String, body: Result<Vec<u8>, String> },
}

/// The release that the release service answered with, or why there is none.
pub open spec fn fetched_release(reply: HttpReply) -> Result<ReleaseModel, Seq<char>> {
    match reply {
        HttpReply::Failed(err) => Err(err@),
        HttpReply::Answered { success, status, body } => if !success {
            Err("HTTP "@ + status@)
        } else {
            match body {
                Err(err) => Err(err@),
                Ok(bytes) => match json_shape(bytes@) {
                    None => Err(BAD_DOCUMENT@),
                    shape => described_release(release_text(shape)),
                },
            }
        },
    }
}

/// The release that the release service answered with, or why there is none.
pub fn fetch_release(reply: &HttpReply) -> (r: Result<ReleaseInfo, String>)
    ensures
        release_result(r) == fetched_release(*reply),
{
    match reply {
        HttpReply::Failed(err) => Err(err.clone()),
        HttpReply::Answered { success, status, body } => {
            if !*success {
                return Err(cat("HTTP ", status.as_str()));
            }
            match body {
                Err(err) => Err(err.clone()),
                Ok(bytes) => match read_release_document(bytes) {
                    Some(doc) => release_from_document(doc),
                    None => Err(BAD_DOCUMENT.to_owned()),
                },
            }
        },
    }
}

/// The extension of the file that a path ends with.
pub open spec fn path_extension(path: Seq<char>) -> Option<Seq<char>> {
    match file_name_of(path) {
        Some(name) => extension_of(name),
        None => None,
    }
}

/// Whether a file is a zip archive by its name.
pub open spec fn is_zip_name(name: Seq<char>) -> bool {
    match path_extension(name) {
        Some(ext) => lower(ext) == lower("zip"@),
        None => false,
    }
}

/// Whether a file is of the smaller ffmpeg build by its name in lower case.
pub open spec fn essentials_name(name: Seq<char>) -> bool {
    has_part(name, "ffmpeg"@) && (has_part(name, "essentials_build"@) || has_part(
        name,
        "release-essentials"@,
    ))
}

/// Whether a file is the archive of the smaller ffmpeg build.
pub open spec fn ffmpeg_zip_name(name: Seq<char>) -> bool {
    is_zip_name(name) && essentials_name(lower(name))
}

/// Whether a file is the checksum list of the smaller ffmpeg build.
pub open spec fn ffmpeg_checksum_name(name: Seq<char>) -> bool {
    has_part(lower(name), "sha256"@) && essentials_name(lower(name))
}

/// Whether a file is a zip archive by its name.
pub fn is_zip_asset(name: &str) -> (r: bool)
    ensures
        r == is_zip_name(name@),
{
    match extension(name) {
        Some(ext) => same_ignoring_case(ext, "zip"),
        None => false,
    }
}

/// Whether a file is of the smaller ffmpeg build by its name in lower case.
fn is_essentials(name: &str) -> (r: bool)
    ensures
        r == essentials_name(name@),
{
    contains(name, "ffmpeg") && (contains(name, "essentials_build") || contains(
        name,
        "release-essentials",
    ))
}

/// Whether a file is the archive of the smaller ffmpeg build.
pub fn is_ffmpeg_essentials_zip_asset(name: &str) -> (r: bool)
    ensures
        r == ffmpeg_zip_name(name@),
{
    let low = to_lower(name);
    is_zip_asset(name) && is_essentials(low.as_str())
}

/// Whether a file is the checksum list of the smaller ffmpeg build.
pub fn is_ffmpeg_essentials_checksum_asset(name: &str) -> (r: bool)
    ensures
        r == ffmpeg_checksum_name(name@),
{
    let low = to_lower(name);
    contains(low.as_str(), "sha256") && is_essentials(low.as_str())
}

/// Which file of a release is wanted.
#[derive(Clone, Copy)]
pub enum AssetQuery {
    /// The one with this name, in either case.
    Named(&'static str),
    /// One whose name holds this text.
    Holding(&'static str),
    /// The archive of the smaller ffmpeg build.
    FfmpegZip,
    /// The checksum list of that archive.
    FfmpegChecksum,
}

impl AssetQuery {
    /// Whether a file of the given name is wanted.
    pub open spec fn wants(self, name: Seq<char>) -> bool {
        match self {
            AssetQuery::Named(wanted) => lower(name) == lower(wanted@),
            AssetQuery::Holding(part) => has_part(name, part@),
            AssetQuery::FfmpegZip => ffmpeg_zip_name(name),
            AssetQuery::FfmpegChecksum => ffmpeg_checksum_name(name),
        }
    }

    /// Whether a file of the given name is wanted.
    pub fn accepts(self, name: &str) -> (r: bool)
        ensures
            r == self.wants(name@),
    {
        match self {
            AssetQuery::Named(wanted) => same_ignoring_case(name, wanted),
            AssetQuery::Holding(part) => contains(name, part),
            AssetQuery::FfmpegZip => is_ffmpeg_essentials_zip_asset(name),
            AssetQuery::FfmpegChecksum => is_ffmpeg_essentials_checksum_asset(name),
        }
    }
}

/// The first file of a list that is wanted.
pub open spec fn first_asset(list: Seq<AssetModel>, query: AssetQuery) -> Option<AssetModel>
    decreases list.len(),
{
    if list.len() == 0 {
        None
    } else if query.wants(list[0].name) {
        Some(list[0])
    } else {
        first_asset(list.drop_first(), query)
    }
}

/// The file of a release, where there is a release, that is wanted.
pub open spec fn release_asset(
    release: Option<ReleaseModel>,
    query: AssetQuery,
) -> Option<AssetModel> {
    match release {
        Some(release) => first_asset(release.assets, query),
        None => None,
    }
}

/// What an optional release is.
pub open spec fn opt_release(release: Option<ReleaseInfo>) -> Option<ReleaseModel> {
    match release {
        Some(release) => Some(release@),
        None => None,
    }
}

/// What an optional file of a release is.
pub open spec fn opt_asset(asset: Option<ReleaseAsset>) -> Option<AssetModel> {
    match asset {
        Some(asset) => Some(asset@),
        None => None,
    }
}

/// The file of a release, where there is a release, that is wanted.
pub fn find_asset(release: &Option<ReleaseInfo>, query: AssetQuery) -> (r: Option<ReleaseAsset>)
    ensures
        opt_asset(r) == release_asset(opt_release(*release), query),
{
    match release {
        Some(known) => {
            let ghost all = known@.assets;
            assert(all.skip(0) =~= all);
            let mut i: usize = 0;
            while i < known.assets.len()
                invariant
                    i <= known.assets.len(),
                    all == known@.assets,
                    *release == Some(*known),
                    first_asset(all, query) == first_asset(all.skip(i as int), query),
                decreases known.assets.len() - i,
            {
                assert(all.skip(i as int)[0] == known.assets@[i as int]@);
                if query.accepts(known.assets[i].name.as_str()) {
                    return Some(known.assets[i].clone());
                }
                assert(all.skip(i as int).drop_first() =~= all.skip(i + 1));
                i = i + 1;
            }
            None
        },
        None => None,
    }
}

/// Every file of a described release has the name and the address that the document gives it, and
/// every file that the document gives both is part of the release.
pub proof fn law_release_lists_complete_assets(doc: ReleaseText, asset: AssetModel)
    requires
        described_release(doc) is Ok,
    ensures
        described_release(doc)->Ok_0.assets.contains(asset) <==> exists|i: int|
            0 <= i < doc.assets->0.len() && (#[trigger] doc.assets->0[i]).name == Some(asset.name)
                && doc.assets->0[i].browser_download_url == Some(asset.url)
                && doc.assets->0[i].digest == asset.digest,
{
    lemma_listed_assets(doc.assets->0, asset);
}

proof fn lemma_listed_assets(list: Seq<AssetText>, asset: AssetModel)
    ensures
        listed_assets(list).contains(asset) <==> exists|i: int|
            0 <= i < list.len() && (#[trigger] list[i]).name == Some(asset.name)
                && list[i].browser_download_url == Some(asset.url) && list[i].digest
                == asset.digest,
    decreases list.len(),
{
    if list.len() > 0 {
        let rest = list.drop_last();
        lemma_listed_assets(rest, asset);
        let before = listed_assets(rest);
        let all = listed_assets(list);
        if before.contains(asset) {
            let k = before.index_of(asset);
            assert(all[k] == asset);
            let i = choose|i: int|
                0 <= i < rest.len() && (#[trigger] rest[i]).name == Some(asset.name)
                    && rest[i].browser_download_url == Some(asset.url) && rest[i].digest
                    == asset.digest;
            assert(list[i] == rest[i]);
        }
        if all.contains(asset) && !before.contains(asset) {
            let k = all.index_of(asset);
            if k < before.len() {
                assert(before[k] == asset);
            }
            assert(list[list.len() - 1].name == Some(asset.name));
        }
        if exists|i: int|
            0 <= i < list.len() && (#[trigger] list[i]).name == Some(asset.name)
                && list[i].browser_download_url == Some(asset.url) && list[i].digest
                == asset.digest {
            let i = choose|i: int|
                0 <= i < list.len() && (#[trigger] list[i]).name == Some(asset.name)
                    && list[i].browser_download_url == Some(asset.url) && list[i].digest
                    == asset.digest;
            if i < rest.len() {
                assert(rest[i] == list[i]);
            } else {
                assert(all.last() == asset);
                assert(all[all.len() - 1] == asset);
            }
        }
    }
}

/// The first file that is wanted is found, and none where none is wanted.
proof fn lemma_first_asset(list: Seq<AssetModel>, query: AssetQuery, i: int)
    requires
        0 <= i <= list.len(),
        forall|j: int| 0 <= j < i ==> !query.wants((#[trigger] list[j]).name),
        i < list.len() ==> query.wants(list[i].name),
    ensures
        first_asset(list, query) == if i < list.len() {
            Some(list[i])
        } else {
            None
        },
    decreases list.len(),
{
    if list.len() > 0 && i > 0 {
        let rest = list.drop_first();
        assert(!query.wants(list[0].name));
        assert forall|j: int| 0 <= j < i - 1 implies !query.wants((#[trigger] rest[j]).name) by {
            assert(rest[j] == list[j + 1]);
        }
        if i < list.len() {
            assert(rest[i - 1] == list[i]);
        }
        lemma_first_asset(rest, query, i - 1);
    }
}

/// Of the files of a release that go by the wanted name, in either case, the first is taken; where
/// there is no such file, none is.
pub proof fn law_named_asset_is_found(
    release: ReleaseInfo,
    name: &'static str,
    i: int,
    r: Option<ReleaseAsset>,
)
    requires
        0 <= i <= release.assets@.len(),
        forall|j: int|
            0 <= j < i ==> !same_name((#[trigger] release.assets@[j]).name@, name@),
        i < release.assets@.len() ==> same_name(release.assets@[i].name@, name@),
        call_ensures(find_asset, (&Some(release), AssetQuery::Named(name)), r),
    ensures
        opt_asset(r) == if i < release.assets@.len() {
            Some(release.assets@[i]@)
        } else {
            None
        },
{
    let list = release@.assets;
    let query = AssetQuery::Named(name);
    assert forall|j: int| 0 <= j < i implies !query.wants((#[trigger] list[j]).name) by {
        assert(list[j] == release.assets@[j]@);
        lemma_same_lower(release.assets@[j].name@, name@);
    }
    if i < list.len() {
        assert(list[i] == release.assets@[i]@);
        lemma_same_lower(release.assets@[i].name@, name@);
    }
    lemma_first_asset(list, query, i);
}

/// Of the files of a release whose name holds the wanted text, letter by letter, the first is taken;
/// where there is no such file, none is.
pub proof fn law_holding_asset_is_found(
    release: ReleaseInfo,
    part: &'static str,
    i: int,
    r: Option<ReleaseAsset>,
)
    requires
        0 <= i <= release.assets@.len(),
        forall|j: int, a: Seq<char>, b: Seq<char>|
            #![trigger release.assets@[j], a + part@ + b]
            0 <= j < i ==> release.assets@[j].name@ != a + part@ + b,
        i < release.assets@.len() ==> exists|a: Seq<char>, b: Seq<char>|
            release.assets@[i].name@ == #[trigger] (a + part@ + b),
        call_ensures(find_asset, (&Some(release), AssetQuery::Holding(part)), r),
    ensures
        opt_asset(r) == if i < release.assets@.len() {
            Some(release.assets@[i]@)
        } else {
            None
        },
{
    let list = release@.assets;
    let query = AssetQuery::Holding(part);
    assert forall|j: int| 0 <= j < i implies !query.wants((#[trigger] list[j]).name) by {
        assert(list[j] == release.assets@[j]@);
        let name = release.assets@[j].name@;
        lemma_part_between(name, part@);
        if has_part(name, part@) {
            let (a, b) = choose|a: Seq<char>, b: Seq<char>| name == #[trigger] (a + part@ + b);
            assert(name == a + part@ + b);
        }
    }
    if i < list.len() {
        assert(list[i] == release.assets@[i]@);
        lemma_part_between(release.assets@[i].name@, part@);
    }
    lemma_first_asset(list, query, i);
}

/// A text has a part exactly where it is something before the part, the part, and something after it.
proof fn lemma_part_between(s: Seq<char>, part: Seq<char>)
    ensures
        has_part(s, part) <==> exists|a: Seq<char>, b: Seq<char>| s == #[trigger] (a + part + b),
{
    if has_part(s, part) {
        let at = choose|at: int| occurs_at(s, part, at);
        let a = s.take(at);
        let b = s.skip(at + part.len());
        assert(s =~= a + part + b) by {
            assert forall|i: int| at <= i < at + part.len() implies s[i] == part[i - at] by {
                assert(s.subrange(at, at + part.len() as int)[i - at] == s[i]);
            }
        }
    }
    if exists|a: Seq<char>, b: Seq<char>| s == #[trigger] (a + part + b) {
        let (a, b) = choose|a: Seq<char>, b: Seq<char>| s == #[trigger] (a + part + b);
        let at = a.len() as int;
        assert(s.subrange(at, at + part.len() as int) =~= part);
        assert(occurs_at(s, part, at));
    }
}

/// Whether `s` holds `part` in any case: some stretch of it is `part` but for the case.
pub open spec fn holds_in_any_case(s: Seq<char>, part: Seq<char>) -> bool {
    exists|a: Seq<char>, m: Seq<char>, b: Seq<char>|
        same_name(m, part) && s == #[trigger] (a + m + b)
}

/// A text holds a part in any case exactly where the text in lower case holds the part in lower case.
proof fn lemma_holds_in_any_case(s: Seq<char>, part: Seq<char>)
    requires
        lower(part) == part,
    ensures
        holds_in_any_case(s, part) <==> has_part(lower(s), part),
{
    if has_part(lower(s), part) {
        let at = choose|at: int| occurs_at(lower(s), part, at);
        let end = at + part.len() as int;
        let a = s.take(at);
        let m = s.subrange(at, end);
        let b = s.skip(end);
        assert(lower(m) =~= lower(s).subrange(at, end));
        lemma_same_lower(m, part);
        assert(s =~= a + m + b);
        assert(holds_in_any_case(s, part));
    }
    if holds_in_any_case(s, part) {
        let (a, m, b) = choose|a: Seq<char>, m: Seq<char>, b: Seq<char>|
            same_name(m, part) && s == #[trigger] (a + m + b);
        lemma_same_lower(m, part);
        let at = a.len() as int;
        let end = at + m.len() as int;
        assert(lower(s).subrange(at, end) =~= lower(m)) by {
            assert forall|i: int| at <= i < end implies lower(s)[i] == lower(m)[i - at] by {
                assert(s[i] == m[i - at]);
            }
        }
        assert(occurs_at(lower(s), part, at));
    }
}

/// A file is the archive of the smaller ffmpeg build exactly where its name, in any case, holds
/// `ffmpeg` and one of the two marks of that build, and has the extension `zip`.
pub proof fn law_ffmpeg_archive_by_name(name: &str, zip: bool, r: bool)
    requires
        call_ensures(is_zip_asset, (name,), zip),
        call_ensures(is_ffmpeg_essentials_zip_asset, (name,), r),
    ensures
        r <==> zip && holds_in_any_case(name@, "ffmpeg"@) && (holds_in_any_case(
            name@,
            "essentials_build"@,
        ) || holds_in_any_case(name@, "release-essentials"@)),
{
    lemma_marks(name@);
}

/// A file is the checksum list of the smaller ffmpeg build exactly where its name, in any case,
/// holds `sha256`, `ffmpeg` and one of the two marks of that build.
pub proof fn law_ffmpeg_checksum_by_name(name: &str, r: bool)
    requires
        call_ensures(is_ffmpeg_essentials_checksum_asset, (name,), r),
    ensures
        r <==> holds_in_any_case(name@, "sha256"@) && holds_in_any_case(name@, "ffmpeg"@) && (
        holds_in_any_case(name@, "essentials_build"@) || holds_in_any_case(
            name@,
            "release-essentials"@,
        )),
{
    lemma_marks(name@);
}

/// The marks of the smaller ffmpeg build are looked for in any case.
proof fn lemma_marks(name: Seq<char>)
    ensures
        holds_in_any_case(name, "ffmpeg"@) <==> has_part(lower(name), "ffmpeg"@),
        holds_in_any_case(name, "sha256"@) <==> has_part(lower(name), "sha256"@),
        holds_in_any_case(name, "essentials_build"@) <==> has_part(
            lower(name),
            "essentials_build"@,
        ),
        holds_in_any_case(name, "release-essentials"@) <==> has_part(
            lower(name),
            "release-essentials"@,
        ),
{
    reveal_strlit("ffmpeg");
    reveal_strlit("sha256");
    reveal_strlit("essentials_build");
    reveal_strlit("release-essentials");
    assert(lower("ffmpeg"@) =~= "ffmpeg"@);
    assert(lower("sha256"@) =~= "sha256"@);
    assert(lower("essentials_build"@) =~= "essentials_build"@);
    assert(lower("release-essentials"@) =~= "release-essentials"@);
    lemma_holds_in_any_case(name, "ffmpeg"@);
    lemma_holds_in_any_case(name, "sha256"@);
    lemma_holds_in_any_case(name, "essentials_build"@);
    lemma_holds_in_any_case(name, "release-essentials"@);
}

/// A file name is that of a zip archive exactly where `.zip`, in any case, stands at its end after
/// at least one other character.
pub proof fn law_zip_by_extension(name: &str, r: bool)
    requires
        is_file_name(name@),
        prefix_len(name@) == 0,
        call_ensures(is_zip_asset, (name,), r),
    ensures
        r <==> name@.len() > 4 && same_name(name@.skip(name@.len() - 4), ".zip"@),
{
    reveal_strlit(".zip");
    reveal_strlit("zip");
    let s = name@;
    let n = s.len() as int;
    let dot = CharClass::Only('.');
    lemma_same_lower("zip"@, "zip"@);
    lemma_plain_name(s);
    let ext = after_last(s, dot);
    lemma_after_last(s, dot);
    let k = stem_len(s);
    if n > 4 && same_name(s.skip(n - 4), ".zip"@) {
        let four = s.skip(n - 4);
        let end = s.skip(n - 3);
        assert(same_letter(four[0], ".zip"@[0]));
        assert forall|i: int| 0 <= i < end.len() implies !dot.has(#[trigger] end[i]) && same_letter(
            end[i],
            "zip"@[i],
        ) by {
            assert(four[i + 1] == end[i]);
            assert(same_letter(four[i + 1], ".zip"@[i + 1]));
        }
        assert(s.take(n - 3).last() == four[0]);
        lemma_last_is(s.take(n - 3), end, dot);
        assert(s.take(n - 3) + end =~= s);
        assert(k == n - 4);
        assert(s.skip(k + 1) =~= end);
        lemma_same_lower(end, "zip"@);
    }
    if r {
        let end = s.skip(k + 1);
        lemma_same_lower(end, "zip"@);
        assert(end.len() == 3);
        assert(k == n - 4);
        assert(dot.has(s[n - ext.len() - 1]));
        let four = s.skip(n - 4);
        assert forall|i: int| 0 <= i < 4 implies same_letter(#[trigger] four[i], ".zip"@[i]) by {
            if i > 0 {
                assert(four[i] == end[i - 1]);
                assert(same_letter(end[i - 1], "zip"@[i - 1]));
            }
        }
    }
}

/// Whether a document is an object whose first member under the key is `json`.
pub open spec fn has_member(shape: Option<ShapeModel>, key: Seq<char>, json: Seq<u8>) -> bool {
    shape matches Some(ShapeModel::Object(members)) && exists|i: int|
        0 <= i < members.len() && #[trigger] members[i] == (key, json) && forall|j: int|
            0 <= j < i ==> (#[trigger] members[j]).0 != key
}

/// Whether a document has no member under the key.
pub open spec fn lacks_member(shape: Option<ShapeModel>, key: Seq<char>) -> bool {
    shape matches Some(ShapeModel::Object(members)) ==> forall|i: int|
        0 <= i < members.len() ==> (#[trigger] members[i]).0 != key
}

/// The first member under a key is the one that is found.
proof fn lemma_member(shape: Option<ShapeModel>, key: Seq<char>)
    ensures
        forall|json: Seq<u8>| has_member(shape, key, json) ==> member_of(shape, key) == Some(json),
        lacks_member(shape, key) ==> member_of(shape, key) is None,
{
    if let Some(ShapeModel::Object(members)) = shape {
        assert forall|json: Seq<u8>| has_member(shape, key, json) implies member_of(shape, key)
            == Some(json) by {
            let i = choose|i: int|
                0 <= i < members.len() && #[trigger] members[i] == (key, json) && forall|j: int|
                    0 <= j < i ==> (#[trigger] members[j]).0 != key;
            lemma_find_member(members, key, i);
        }
        if lacks_member(shape, key) {
            lemma_find_member(members, key, members.len() as int);
        }
    }
}

proof fn lemma_find_member(members: Seq<(Seq<char>, Seq<u8>)>, key: Seq<char>, i: int)
    requires
        0 <= i <= members.len(),
        i < members.len() ==> members[i].0 == key,
        forall|j: int| 0 <= j < i ==> (#[trigger] members[j]).0 != key,
    ensures
        find_member(members, key) == if i < members.len() {
            Some(members[i].1)
        } else {
            None
        },
    decreases members.len(),
{
    if members.len() > 0 && i > 0 {
        let rest = members.drop_first();
        assert(members[0].0 != key);
        assert forall|j: int| 0 <= j < i - 1 implies (#[trigger] rest[j]).0 != key by {
            assert(rest[j] == members[j + 1]);
        }
        if i < members.len() {
            assert(rest[i - 1] == members[i]);
        }
        lemma_find_member(rest, key, i - 1);
    }
}

/// A release document gives the release its tag under `tag_name`, and under `assets` its files, each
/// with its name under `name`, its address under `browser_download_url` and, where it is there, its
/// digest under `digest`.
pub proof fn law_release_document_is_read(
    status: String,
    body: Vec<u8>,
    tag_json: Seq<u8>,
    tag: Seq<char>,
    assets_json: Seq<u8>,
    items: Seq<Seq<u8>>,
    k: int,
    name_json: Seq<u8>,
    name: Seq<char>,
    url_json: Seq<u8>,
    url: Seq<char>,
    digest_json: Seq<u8>,
    digest: Seq<char>,
    r: Result<ReleaseInfo, String>,
)
    requires
        has_member(json_shape(body@), "tag_name"@, tag_json),
        json_shape(tag_json) == Some(ShapeModel::Text(tag)),
        has_member(json_shape(body@), "assets"@, assets_json),
        json_shape(assets_json) == Some(ShapeModel::List(items)),
        0 <= k < items.len(),
        has_member(json_shape(items[k]), "name"@, name_json),
        json_shape(name_json) == Some(ShapeModel::Text(name)),
        has_member(json_shape(items[k]), "browser_download_url"@, url_json),
        json_shape(url_json) == Some(ShapeModel::Text(url)),
        has_member(json_shape(items[k]), "digest"@, digest_json) && json_shape(digest_json) == Some(
            ShapeModel::Text(digest),
        ) || lacks_member(json_shape(items[k]), "digest"@),
        call_ensures(
            fetch_release,
            (&(HttpReply::Answered { success: true, status, body: Ok(body) }),),
            r,
        ),
    ensures
        r is Ok,
        r->Ok_0.tag@ == tag,
        exists|i: int|
            0 <= i < r->Ok_0.assets@.len() && (#[trigger] r->Ok_0.assets@[i]).name@ == name
                && r->Ok_0.assets@[i].url@ == url && opt_text(r->Ok_0.assets@[i].digest)
                == if has_member(json_shape(items[k]), "digest"@, digest_json) {
                Some(digest)
            } else {
                None
            },
{
    let shape = json_shape(body@);
    let item = json_shape(items[k]);
    lemma_member(shape, "tag_name"@);
    lemma_member(shape, "assets"@);
    lemma_member(item, "name"@);
    lemma_member(item, "browser_download_url"@);
    lemma_member(item, "digest"@);
    let doc = release_text(shape);
    let said = asset_text(item);
    assert(doc.assets->0[k] == said);
    let asset = AssetModel { name, url, digest: said.digest };
    if has_member(item, "digest"@, digest_json) {
        if let Some(ShapeModel::Object(members)) = item {
            let i = choose|i: int|
                0 <= i < members.len() && #[trigger] members[i] == ("digest"@, digest_json)
                    && forall|j: int| 0 <= j < i ==> (#[trigger] members[j]).0 != "digest"@;
            assert(members[i].0 == "digest"@);
        }
    }
    lemma_listed_assets(doc.assets->0, asset);
    let release = r->Ok_0;
    assert(release@.assets.contains(asset));
    let i = release@.assets.index_of(asset);
    assert(release@.assets[i] == release.assets@[i]@);
}

/// The files of a release come in the order of its document, and a file without a name or an address
/// is left out without any effect on the others.
pub proof fn law_assets_keep_their_order(before: Seq<AssetText>, after: Seq<AssetText>, one: AssetText)
    ensures
        listed_assets(before + after) == listed_assets(before) + listed_assets(after),
        listed_assets(seq![one]) == if one.name is Some && one.browser_download_url is Some {
            seq![
                AssetModel {
                    name: one.name->0,
                    url: one.browser_download_url->0,
                    digest: one.digest,
                },
            ]
        } else {
            Seq::empty()
        },
    decreases after.len(),
{
    let single = seq![one];
    assert(single.drop_last() =~= Seq::<AssetText>::empty());
    assert(single.last() == one);
    reveal_with_fuel(listed_assets, 2);
    assert(listed_assets(single) =~= if one.name is Some && one.browser_download_url is Some {
        seq![
            AssetModel {
                name: one.name->0,
                url: one.browser_download_url->0,
                digest: one.digest,
            },
        ]
    } else {
        Seq::empty()
    });
    let all = before + after;
    if after.len() > 0 {
        law_assets_keep_their_order(before, after.drop_last(), one);
        assert(all.drop_last() =~= before + after.drop_last());
        assert(all.last() == after.last());
        assert(listed_assets(all) =~= listed_assets(before) + listed_assets(after));
    } else {
        assert(all =~= before);
        assert(listed_assets(all) =~= listed_assets(before) + listed_assets(after));
    }
}

/// There is no release without an answer, with a status other than success, without a body, or in a
/// body that is no JSON document or lacks the tag or the files; the reason is reported.
pub proof fn law_unusable_answer_is_reported(reply: HttpReply, r: Result<ReleaseInfo, String>)
    requires
        call_ensures(fetch_release, (&reply,), r),
    ensures
        reply matches HttpReply::Failed(err) ==> r is Err && r->Err_0@ == err@,
        reply matches HttpReply::Answered { success, status, body } ==> {
            &&& !success ==> r is Err && r->Err_0@ == "HTTP "@ + status@
            &&& success && body is Err ==> r is Err && r->Err_0@ == body->Err_0@
            &&& success && body is Ok && json_shape(body->Ok_0@) is None ==> r is Err
            &&& success && body is Ok && json_shape(body->Ok_0@) is Some && lacks_member(
                json_shape(body->Ok_0@),
                "tag_name"@,
            ) ==> r is Err && r->Err_0@ == "tag_name не найден"@
            &&& success && body is Ok && json_shape(body->Ok_0@) is Some && lacks_member(
                json_shape(body->Ok_0@),
                "assets"@,
            ) ==> r is Err
        },
{
    if let HttpReply::Answered { success, status, body } = reply {
        if let Ok(bytes) = body {
            lemma_member(json_shape(bytes@), "tag_name"@);
            lemma_member(json_shape(bytes@), "assets"@);
        }
    }
}

} // verus!
