//! The curated development data set: five tribes, eight artists linked to
//! their tribes by name, and seven works linked to their artists by name.
//! The seeding program inserts these in order and feeds the ids the
//! database hands back into the next step.

use vstd::prelude::*;
use crate::artifacts::model::ArtifactInput;
use crate::artists::model::ArtistInput;
use crate::text::push_str;
use crate::tribes::model::TribeInput;

verus! {

/// A row the seeder inserted: the id the database gave it and the name it
/// is looked up by.
#[derive(Debug, Clone)]
pub struct Seeded {
    pub id: u128,
    pub name: String,
}

/// The id of the first row named `name`, if any.
pub open spec fn first_id(rows: Seq<Seeded>, name: Seq<char>) -> Option<u128>
    decreases rows.len(),
{
    if rows.len() == 0 {
        None
    } else if rows[0].name@ == name {
        Some(rows[0].id)
    } else {
        first_id(rows.drop_first(), name)
    }
}

/// The id of the first row named `name`, if any.
pub fn find_id(rows: &Vec<Seeded>, name: &str) -> (r: Option<u128>)
    ensures
        r == first_id(rows@, name@),
{
    let mut i: usize = 0;
    assert(rows@.skip(0) =~= rows@);
    while i < rows.len()
        invariant
            i <= rows.len(),
            first_id(rows@, name@) == first_id(rows@.skip(i as int), name@),
        decreases rows.len() - i,
    {
        assert(rows@.skip(i as int).drop_first() =~= rows@.skip(i + 1));
        if crate::text::str_eq(rows[i].name.as_str(), name) {
            return Some(rows[i].id);
        }
        i += 1;
    }
    None
}

/// The text of an optional field, if given.
pub open spec fn opt_text(o: Option<String>) -> Option<Seq<char>> {
    match o {
        Some(t) => Some(t@),
        None => None,
    }
}

/// A seeded tribe.
pub struct TribeSeed {
    pub name: Seq<char>,
    pub region: Seq<char>,
    pub language_group: Seq<char>,
    pub description: Seq<char>,
}

/// A seeded artist; `tribe` names the tribe it is linked to.
pub struct ArtistSeed {
    pub name: Seq<char>,
    pub birth: i16,
    pub death: i16,
    pub region: Seq<char>,
    pub biography: Seq<char>,
    pub tribe: Option<Seq<char>>,
}

/// A seeded work, a painting; `artist` names the artist it is linked to.
pub struct ArtifactSeed {
    pub title: Seq<char>,
    pub artist: Seq<char>,
    pub art_style: Seq<char>,
    pub medium: Seq<char>,
    pub year: i16,
    pub height: i16,
    pub width: i16,
    pub description: Seq<char>,
}

/// The seeded tribes, in insertion order.
pub open spec fn tribe_seeds() -> Seq<TribeSeed> {
    seq![
        TribeSeed {
            name: "Pintupi"@,
            region: "Western Desert"@,
            language_group: "Western Desert language"@,
            description: "Aboriginal Australian people from the Gibson Desert region of Western Australia and the Northern Territory."@,
        },
        TribeSeed {
            name: "Yolngu"@,
            region: "Arnhem Land"@,
            language_group: "Yolngu Matha"@,
            description: "Aggregation of Aboriginal Australian peoples inhabiting north-eastern Arnhem Land."@,
        },
        TribeSeed {
            name: "Anmatyerre"@,
            region: "Central Desert"@,
            language_group: "Anmatyerr (Arandic)"@,
            description: "Aboriginal Australian people of the Central Desert region, north of Mparntwe (Alice Springs)."@,
        },
        TribeSeed {
            name: "Arrernte"@,
            region: "Central Australia"@,
            language_group: "Arrernte (Arandic)"@,
            description: "Group of Aboriginal Australian peoples whose traditional lands include Mparntwe (Alice Springs)."@,
        },
        TribeSeed {
            name: "Tiwi"@,
            region: "Tiwi Islands"@,
            language_group: "Tiwi (language isolate)"@,
            description: "Aboriginal Australian people of the Tiwi Islands, north of Darwin in the Timor Sea."@,
        },
    ]
}

/// The seeded artists, in insertion order.
pub open spec fn artist_seeds() -> Seq<ArtistSeed> {
    seq![
        ArtistSeed {
            name: "Emily Kame Kngwarreye"@,
            birth: 1910,
            death: 1996,
            region: "Utopia, Northern Territory"@,
            biography: "One of Australia's most prominent contemporary Aboriginal artists, known for vibrant, gestural paintings of her Country."@,
            tribe: Some("Anmatyerre"@),
        },
        ArtistSeed {
            name: "Albert Namatjira"@,
            birth: 1902,
            death: 1959,
            region: "Hermannsburg, Northern Territory"@,
            biography: "Watercolour painter of Central Australian landscapes; often credited as the first internationally celebrated Aboriginal artist."@,
            tribe: Some("Arrernte"@),
        },
        ArtistSeed {
            name: "Rover Thomas"@,
            birth: 1926,
            death: 1998,
            region: "Kimberley region, Western Australia"@,
            biography: "Pioneering East Kimberley painter; co-founder of the Warmun art movement."@,
            tribe: None,
        },
        ArtistSeed {
            name: "Clifford Possum Tjapaltjarri"@,
            birth: 1932,
            death: 2002,
            region: "Napperby Station, Northern Territory"@,
            biography: "A founding member of the Western Desert art movement; known for large-scale topographical 'map' paintings."@,
            tribe: Some("Anmatyerre"@),
        },
        ArtistSeed {
            name: "Mick Namarari Tjapaltjarri"@,
            birth: 1926,
            death: 1998,
            region: "Marnpi, Northern Territory"@,
            biography: "Founding member of the Papunya Tula movement; later associated with the Pintupi return-to-Country period."@,
            tribe: Some("Pintupi"@),
        },
        ArtistSeed {
            name: "Naata Nungurrayi"@,
            birth: 1932,
            death: 2021,
            region: "Kintore, Northern Territory"@,
            biography: "Senior Pintupi painter; works often depict women's ceremony at sacred sites near her Country."@,
            tribe: Some("Pintupi"@),
        },
        ArtistSeed {
            name: "Gulumbu Yunupingu"@,
            birth: 1945,
            death: 2012,
            region: "Gunyangara, Arnhem Land"@,
            biography: "Yolngu artist whose paintings of Garak (the universe) gained international recognition."@,
            tribe: Some("Yolngu"@),
        },
        ArtistSeed {
            name: "Kitty Kantilla"@,
            birth: 1928,
            death: 2003,
            region: "Milikapiti, Tiwi Islands"@,
            biography: "Senior Tiwi artist who worked in painting, printmaking and sculpture, often depicting jilamara designs."@,
            tribe: Some("Tiwi"@),
        },
    ]
}

/// The seeded works, in insertion order.
pub open spec fn artifact_seeds() -> Seq<ArtifactSeed> {
    seq![
        ArtifactSeed {
            title: "Earth's Creation"@,
            artist: "Emily Kame Kngwarreye"@,
            art_style: "Western Desert"@,
            medium: "Synthetic polymer paint on canvas, four panels"@,
            year: 1994,
            height: 275,
            width: 632,
            description: "A monumental four-panel painting referencing the abundance of her Country during the wet season."@,
        },
        ArtifactSeed {
            title: "Hermannsburg Landscape"@,
            artist: "Albert Namatjira"@,
            art_style: "Hermannsburg School"@,
            medium: "Watercolour on paper"@,
            year: 1950,
            height: 38,
            width: 56,
            description: "A characteristic Central Australian landscape with white-trunked ghost gums against red ranges."@,
        },
        ArtifactSeed {
            title: "Roads Crossing the Salt Pan"@,
            artist: "Rover Thomas"@,
            art_style: "East Kimberley"@,
            medium: "Natural earth pigments and bush gum on canvas"@,
            year: 1986,
            height: 90,
            width: 180,
            description: "Recounts country traversed during a Dreaming journey, with broad ochre fields and white dotted lines marking the route."@,
        },
        ArtifactSeed {
            title: "Warlugulong"@,
            artist: "Clifford Possum Tjapaltjarri"@,
            art_style: "Western Desert"@,
            medium: "Synthetic polymer paint on canvas"@,
            year: 1977,
            height: 202,
            width: 338,
            description: "A topographical narrative depicting the ancestral fire Dreaming and related stories spanning the artist's Country."@,
        },
        ArtifactSeed {
            title: "Marrapinti"@,
            artist: "Naata Nungurrayi"@,
            art_style: "Western Desert"@,
            medium: "Synthetic polymer paint on linen"@,
            year: 2002,
            height: 122,
            width: 153,
            description: "Depicts the rockhole site of Marrapinti, west of Pollock Hills, where ancestral women gathered."@,
        },
        ArtifactSeed {
            title: "Garak — The Universe"@,
            artist: "Gulumbu Yunupingu"@,
            art_style: "Yirrkala bark"@,
            medium: "Natural pigments on bark"@,
            year: 2004,
            height: 155,
            width: 60,
            description: "A bark painting representing the vastness of Garak — the universe — and the artist's place within it."@,
        },
        ArtifactSeed {
            title: "Jilamara"@,
            artist: "Kitty Kantilla"@,
            art_style: "Tiwi"@,
            medium: "Natural ochres on canvas"@,
            year: 2000,
            height: 120,
            width: 90,
            description: "Tiwi body-painting designs translated to canvas, with bold geometric patterning in ochre, white and black."@,
        },
    ]
}

/// The names of the artists of the seeded works, in insertion order.
pub open spec fn artifact_seed_artists() -> Seq<Seq<char>> {
    artifact_seeds().map_values(|w: ArtifactSeed| w.artist)
}

/// `t` is the input that inserts the tribe `s`.
pub open spec fn is_tribe_seed(t: TribeInput, s: TribeSeed) -> bool {
    &&& t.name@ == s.name
    &&& opt_text(t.region) == Some(s.region)
    &&& opt_text(t.language_group) == Some(s.language_group)
    &&& opt_text(t.description) == Some(s.description)
}

/// The id of the tribe an artist is seeded with.
pub open spec fn seeded_tribe_id(tribes: Seq<Seeded>, tribe_name: Option<Seq<char>>) -> Option<u128> {
    match tribe_name {
        Some(n) => first_id(tribes, n),
        None => None,
    }
}

/// `a` is the input that inserts the artist `s`, linked to the first of
/// `tribes` with its tribe's name.
pub open spec fn is_artist_seed(a: ArtistInput, s: ArtistSeed, tribes: Seq<Seeded>) -> bool {
    &&& a.display_name@ == s.name
    &&& a.birth_year == Some(s.birth)
    &&& a.death_year == Some(s.death)
    &&& opt_text(a.region) == Some(s.region)
    &&& opt_text(a.biography) == Some(s.biography)
    &&& a.tribe_id == seeded_tribe_id(tribes, s.tribe)
}

/// `w` is the input that inserts the work `s`, attributed to `artist_id`.
pub open spec fn is_artifact_seed(w: ArtifactInput, s: ArtifactSeed, artist_id: u128) -> bool {
    &&& w.title@ == s.title
    &&& w.artist_id == artist_id
    &&& opt_text(w.art_type) == Some("painting"@)
    &&& opt_text(w.art_style) == Some(s.art_style)
    &&& opt_text(w.medium) == Some(s.medium)
    &&& w.year_created == Some(s.year)
    &&& w.height_cm == Some(s.height)
    &&& w.width_cm == Some(s.width)
    &&& w.depth_cm is None
    &&& opt_text(w.description) == Some(s.description)
}

fn tribe(name: &str, region: &str, language_group: &str, description: &str) -> (r: TribeInput)
    ensures
        is_tribe_seed(
            r,
            TribeSeed {
                name: name@,
                region: region@,
                language_group: language_group@,
                description: description@,
            },
        ),
{
    TribeInput {
        name: name.to_owned(),
        region: Some(region.to_owned()),
        language_group: Some(language_group.to_owned()),
        description: Some(description.to_owned()),
    }
}

/// The tribes to insert, in order.
pub fn seed_tribes() -> (r: Vec<TribeInput>)
    ensures
        r@.len() == tribe_seeds().len(),
        forall|i: int| 0 <= i < r@.len() ==> is_tribe_seed(#[trigger] r@[i], tribe_seeds()[i]),
{
    let mut v: Vec<TribeInput> = Vec::new();
    v.push(tribe(
        "Pintupi",
        "Western Desert",
        "Western Desert language",
        "Aboriginal Australian people from the Gibson Desert region of Western Australia and the Northern Territory.",
    ));
    v.push(tribe(
        "Yolngu",
        "Arnhem Land",
        "Yolngu Matha",
        "Aggregation of Aboriginal Australian peoples inhabiting north-eastern Arnhem Land.",
    ));
    v.push(tribe(
        "Anmatyerre",
        "Central Desert",
        "Anmatyerr (Arandic)",
        "Aboriginal Australian people of the Central Desert region, north of Mparntwe (Alice Springs).",
    ));
    v.push(tribe(
        "Arrernte",
        "Central Australia",
        "Arrernte (Arandic)",
        "Group of Aboriginal Australian peoples whose traditional lands include Mparntwe (Alice Springs).",
    ));
    v.push(tribe(
        "Tiwi",
        "Tiwi Islands",
        "Tiwi (language isolate)",
        "Aboriginal Australian people of the Tiwi Islands, north of Darwin in the Timor Sea.",
    ));
    v
}

fn artist(
    name: &str,
    birth: i16,
    death: i16,
    region: &str,
    biography: &str,
    tribe_name: Option<&str>,
    tribes: &Vec<Seeded>,
) -> (r: ArtistInput)
    ensures
        is_artist_seed(
            r,
            ArtistSeed {
                name: name@,
                birth,
                death,
                region: region@,
                biography: biography@,
                tribe: match tribe_name {
                    Some(n) => Some(n@),
                    None => None,
                },
            },
            tribes@,
        ),
{
    let tribe_id = match tribe_name {
        Some(n) => find_id(tribes, n),
        None => None,
    };
    ArtistInput {
        display_name: name.to_owned(),
        birth_year: Some(birth),
        death_year: Some(death),
        region: Some(region.to_owned()),
        biography: Some(biography.to_owned()),
        tribe_id,
    }
}

/// The artists to insert, in order, each linked to the first seeded tribe
/// of its tribe's name (or to none).
pub fn seed_artists(tribes: &Vec<Seeded>) -> (r: Vec<ArtistInput>)
    ensures
        r@.len() == artist_seeds().len(),
        forall|i: int| 0 <= i < r@.len() ==> is_artist_seed(#[trigger] r@[i], artist_seeds()[i], tribes@),
{
    let mut v: Vec<ArtistInput> = Vec::new();
    v.push(artist(
        "Emily Kame Kngwarreye",
        1910,
        1996,
        "Utopia, Northern Territory",
        "One of Australia's most prominent contemporary Aboriginal artists, known for vibrant, gestural paintings of her Country.",
        Some("Anmatyerre"),
        tribes,
    ));
    v.push(artist(
        "Albert Namatjira",
        1902,
        1959,
        "Hermannsburg, Northern Territory",
        "Watercolour painter of Central Australian landscapes; often credited as the first internationally celebrated Aboriginal artist.",
        Some("Arrernte"),
        tribes,
    ));
    v.push(artist(
        "Rover Thomas",
        1926,
        1998,
        "Kimberley region, Western Australia",
        "Pioneering East Kimberley painter; co-founder of the Warmun art movement.",
        None,
        tribes,
    ));
    v.push(artist(
        "Clifford Possum Tjapaltjarri",
        1932,
        2002,
        "Napperby Station, Northern Territory",
        "A founding member of the Western Desert art movement; known for large-scale topographical 'map' paintings.",
        Some("Anmatyerre"),
        tribes,
    ));
    v.push(artist(
        "Mick Namarari Tjapaltjarri",
        1926,
        1998,
        "Marnpi, Northern Territory",
        "Founding member of the Papunya Tula movement; later associated with the Pintupi return-to-Country period.",
        Some("Pintupi"),
        tribes,
    ));
    v.push(artist(
        "Naata Nungurrayi",
        1932,
        2021,
        "Kintore, Northern Territory",
        "Senior Pintupi painter; works often depict women's ceremony at sacred sites near her Country.",
        Some("Pintupi"),
        tribes,
    ));
    v.push(artist(
        "Gulumbu Yunupingu",
        1945,
        2012,
        "Gunyangara, Arnhem Land",
        "Yolngu artist whose paintings of Garak (the universe) gained international recognition.",
        Some("Yolngu"),
        tribes,
    ));
    v.push(artist(
        "Kitty Kantilla",
        1928,
        2003,
        "Milikapiti, Tiwi Islands",
        "Senior Tiwi artist who worked in painting, printmaking and sculpture, often depicting jilamara designs.",
        Some("Tiwi"),
        tribes,
    ));
    v
}

/// The name of the first seeded work's artist that was not seeded.
pub open spec fn first_missing_artist(artists: Seq<Seeded>, names: Seq<Seq<char>>) -> Option<Seq<char>>
    decreases names.len(),
{
    if names.len() == 0 {
        None
    } else if first_id(artists, names[0]) is None {
        Some(names[0])
    } else {
        first_missing_artist(artists, names.drop_first())
    }
}

/// The text the seeder stops with when a work's artist was not seeded.
pub open spec fn missing_artist_message(name: Seq<char>) -> Seq<char> {
    "seed: missing artist "@ + name
}

fn artifact(
    title: &str,
    artist_name: &str,
    art_style: &str,
    medium: &str,
    year: i16,
    height: i16,
    width: i16,
    description: &str,
    artists: &Vec<Seeded>,
) -> (r: Result<ArtifactInput, String>)
    ensures
        first_id(artists@, artist_name@) matches Some(id) ==> (r matches Ok(a) && is_artifact_seed(
            a,
            ArtifactSeed {
                title: title@,
                artist: artist_name@,
                art_style: art_style@,
                medium: medium@,
                year,
                height,
                width,
                description: description@,
            },
            id,
        )),
        first_id(artists@, artist_name@) is None ==> (r matches Err(m) && m@
            == missing_artist_message(artist_name@)),
{
    let artist_id = match find_id(artists, artist_name) {
        Some(id) => id,
        None => {
            let mut m = "seed: missing artist ".to_owned();
            push_str(&mut m, artist_name);
            return Err(m);
        },
    };
    Ok(
        ArtifactInput {
            title: title.to_owned(),
            artist_id,
            art_type: Some("painting".to_owned()),
            art_style: Some(art_style.to_owned()),
            medium: Some(medium.to_owned()),
            year_created: Some(year),
            height_cm: Some(height),
            width_cm: Some(width),
            depth_cm: None,
            description: Some(description.to_owned()),
        },
    )
}

/// The works to insert, in order, each linked to the first seeded artist
/// of its artist's name; the first work whose artist was not seeded stops
/// the seeding with its name.
#[verifier::rlimit(40)]
pub fn seed_artifacts(artists: &Vec<Seeded>) -> (r: Result<Vec<ArtifactInput>, String>)
    ensures
        first_missing_artist(artists@, artifact_seed_artists()) matches Some(n) ==> (r matches Err(m)
            && m@ == missing_artist_message(n)),
        first_missing_artist(artists@, artifact_seed_artists()) is None ==> (r matches Ok(v) && v@.len()
            == artifact_seeds().len() && forall|i: int|
            0 <= i < v@.len() ==> #[trigger] first_id(artists@, artifact_seeds()[i].artist) == Some(
                v@[i].artist_id,
            ) && is_artifact_seed(v@[i], artifact_seeds()[i], v@[i].artist_id)),
{
    let ghost names = artifact_seed_artists();
    proof {
        reveal_with_fuel(first_missing_artist, 8);
        assert(names.drop_first() =~= names.subrange(1, 7));
        assert(names.subrange(1, 7).drop_first() =~= names.subrange(2, 7));
        assert(names.subrange(2, 7).drop_first() =~= names.subrange(3, 7));
        assert(names.subrange(3, 7).drop_first() =~= names.subrange(4, 7));
        assert(names.subrange(4, 7).drop_first() =~= names.subrange(5, 7));
        assert(names.subrange(5, 7).drop_first() =~= names.subrange(6, 7));
        assert(names.subrange(6, 7).drop_first() =~= Seq::<Seq<char>>::empty());
    }
    let mut v: Vec<ArtifactInput> = Vec::new();
    v.push(artifact(
        "Earth's Creation",
        "Emily Kame Kngwarreye",
        "Western Desert",
        "Synthetic polymer paint on canvas, four panels",
        1994,
        275,
        632,
        "A monumental four-panel painting referencing the abundance of her Country during the wet season.",
        artists,
    )?);
    v.push(artifact(
        "Hermannsburg Landscape",
        "Albert Namatjira",
        "Hermannsburg School",
        "Watercolour on paper",
        1950,
        38,
        56,
        "A characteristic Central Australian landscape with white-trunked ghost gums against red ranges.",
        artists,
    )?);
    v.push(artifact(
        "Roads Crossing the Salt Pan",
        "Rover Thomas",
        "East Kimberley",
        "Natural earth pigments and bush gum on canvas",
        1986,
        90,
        180,
        "Recounts country traversed during a Dreaming journey, with broad ochre fields and white dotted lines marking the route.",
        artists,
    )?);
    v.push(artifact(
        "Warlugulong",
        "Clifford Possum Tjapaltjarri",
        "Western Desert",
        "Synthetic polymer paint on canvas",
        1977,
        202,
        338,
        "A topographical narrative depicting the ancestral fire Dreaming and related stories spanning the artist's Country.",
        artists,
    )?);
    v.push(artifact(
        "Marrapinti",
        "Naata Nungurrayi",
        "Western Desert",
        "Synthetic polymer paint on linen",
        2002,
        122,
        153,
        "Depicts the rockhole site of Marrapinti, west of Pollock Hills, where ancestral women gathered.",
        artists,
    )?);
    v.push(artifact(
        "Garak — The Universe",
        "Gulumbu Yunupingu",
        "Yirrkala bark",
        "Natural pigments on bark",
        2004,
        155,
        60,
        "A bark painting representing the vastness of Garak — the universe — and the artist's place within it.",
        artists,
    )?);
    v.push(artifact(
        "Jilamara",
        "Kitty Kantilla",
        "Tiwi",
        "Natural ochres on canvas",
        2000,
        120,
        90,
        "Tiwi body-painting designs translated to canvas, with bold geometric patterning in ochre, white and black.",
        artists,
    )?);
    Ok(v)
}

} // verus!
