// The dictionary-page structuring, held to recorded page texts.

use mafa::camd_res::{CamdResult, DefaultExpl, Examp, Expl, LevelExpained, RealExamp};

#[test]
fn camd_res__1() {
        let explained = "\"______ \\nhello\\nexclamation, noun\\nUS  /heˈloʊ/ UK  /heˈləʊ/\\n(also mainly UK hallo); (hullo)\\nAdd to word list \\nA1\\nused when meeting or greeting someone:\\nHello, Paul. I haven't seen you for ages.\\nI know her vaguely - we've exchanged hellos a few times.\\nI just thought I'd call by and say hello.\\nAnd a big hello (= welcome) to all the parents who've come to see the show.\\n \\nA1\\nsomething that is said at the beginning of a phone conversation:\\n\\\"Hello, I'd like some information about flights to the U.S., please.\\\"\\n \\nsomething that is said to attract someone's attention:\\nThe front door was open so she walked inside and called out, \\\"Hello! Is there anybody in?\\\"\\n \\ninformal\\nsaid to someone who has just said or done something stupid, especially something that shows they are not noticing what is happening:\\nShe asked me if I'd just arrived and I was like \\\"Hello, I've been here for an hour.\\\"\\n \\nold-fashioned\\nan expression of surprise:\\nHello, this is very strange - I know that man.\\n Fewer examples\\nCathy poked her head round the door to say hello.\\nWhen he said hello, I felt my face turn bright red.\\nHello - could I speak to Ann, please?\\nAfter we'd said our hellos, it all went quiet and nobody knew what to do.\\nOh, hello - what are you doing in here?\\n SMART Vocabulary: related words and phrases\\nGrammar\\nGreetings and farewells: hello, goodbye, Happy New Year\\nWhen we see someone we know, we usually exchange greetings: …\\nSaying hello\\nWhen we see someone we know, we usually exchange greetings: …\\nSaying goodbye\\nWhen we leave people, we usually say something as we leave: …\\n(Definition of hello from the Cambridge Advanced Learner's Dictionary & Thesaurus © Cambridge University Press)______hello | INTERMEDIATE ENGLISH\\nhello\\nexclamation, noun [ C ]\\nUS  /heˈloʊ, hə-/\\nplural hellos\\nAdd to word list \\nused when meeting or greeting someone:\\n\\\"Hello, Paul,\\\" she said, \\\"I haven’t seen you for months.\\\"\\nI know her vaguely – we’ve exchanged hellos a few times.\\nCome and say hello to my friends (= meet them).\\n \\nHello is also said at the beginning of a telephone conversation.\\n \\nHello is also used to attract someone’s attention:\\nShe walked into the shop and called out, \\\"Hello! Is anybody here?\\\"\\n(Definition of hello from the Cambridge Academic Content Dictionary © Cambridge University Press)______EXAMPLES of hello\\nhello\\nShe said that the highlight of her day was when she went up to say hello to one of the families.\\nFrom Huffington Post\\nWe learned to hear sorrow in one \\\"hello,\\\" and how to sit with each other without words.\\nFrom Huffington Post\\nThey say they hear him saying words like \\\"hello,\\\" even if others are skeptical, and say he responds to their attention.\\nFrom ABC News\\nUsually, they get a response, and the second baseman will find his friends and say hello.\\nFrom ESPN\\nThough he played a criminal on television, they say he was one of the nicest men and always waved hello.\\nFrom CNN\\nAlmost everybody stops by to say hello and chat.\\nFrom Chicago Tribune\\nHello, this is your friendly government authority here.\\nFrom Gizmodo\\nHello, please allow me to introduce myself, sir.\\nFrom CNN\\nWalk up to him or her and do three things: smile, say hello, and listen.\\nFrom Huffington Post\\nWhat are the characteristics of the way you say, \\\"hello,\\\" (or anything else for that matter) that makes you recognizable over the phone?\\nFrom Phys.Org\\nHello didn't become \\\"hi\\\" until the telephone arrived.\\nFrom NPR\\nThese examples are from corpora and from sources on the web. Any opinions in the examples do not represent the opinion of the Cambridge Dictionary editors or of Cambridge University Press or its licensors.______What is the pronunciation of hello?______\u{a0}\"".to_string();

        let camd_res = CamdResult::from_str("hello", &explained).expect("bug");

        let mut expected_camd_res = CamdResult("hello".to_string(), vec![]);

        // primary one
        let mut expl = DefaultExpl::default();
        expl.is_interme = false;
        expl.is_busi = false;
        expl.pronun = "US  /heˈloʊ/ UK  /heˈləʊ/".to_string();
        expl.expls.push(Expl {
            meaning: "used when meeting or greeting someone:".to_string(),
            usages: vec![
                "Hello, Paul. I haven't seen you for ages.".to_string(),
                "I know her vaguely - we've exchanged hellos a few times.".to_string(),
                "I just thought I'd call by and say hello.".to_string(),
                "And a big hello (= welcome) to all the parents who've come to see the show.".to_string(),
            ],
            nv_cate: None,
        });
        expl.expls.push(Expl {
            meaning: "something that is said at the beginning of a phone conversation:".to_string(),
            usages: vec![
                "\\\"Hello, I'd like some information about flights to the U.S., please.\\\"".to_string(),
            ],
            nv_cate: None,
        });
        expl.expls.push(Expl {
            meaning: "something that is said to attract someone's attention:".to_string(),
            usages: vec![
                "The front door was open so she walked inside and called out, \\\"Hello! Is there anybody in?\\\"".to_string(),
            ],
            nv_cate: None,
        });
        expl.expls.push(Expl {
            meaning: "said to someone who has just said or done something stupid, especially something that shows they are not noticing what is happening:".to_string(),
            usages: vec![
                "She asked me if I'd just arrived and I was like \\\"Hello, I've been here for an hour.\\\"".to_string(),
            ],
            nv_cate: None,
        });
        expl.expls.push(Expl {
            meaning: "an expression of surprise:".to_string(),
            usages: vec![
                "Hello, this is very strange - I know that man.".to_string(),
                // " Fewer examples".to_string(),
                // "Cathy poked her head round the door to say hello.".to_string(),
                // "When he said hello, I felt my face turn bright red.".to_string(),
                // "Hello - could I speak to Ann, please?".to_string(),
                // "After we'd said our hellos, it all went quiet and nobody knew what to do.".to_string(),
                // "Oh, hello - what are you doing in here?".to_string(),
            ],
            nv_cate: None,
        });

        expected_camd_res
            .1
            .push(LevelExpained::DefaultKind(expl, " \\nhello\\nexclamation, noun\\nUS  /heˈloʊ/ UK  /heˈləʊ/\\n(also mainly UK hallo); (hullo)\\nAdd to word list \\nA1\\nused when meeting or greeting someone:\\nHello, Paul. I haven't seen you for ages.\\nI know her vaguely - we've exchanged hellos a few times.\\nI just thought I'd call by and say hello.\\nAnd a big hello (= welcome) to all the parents who've come to see the show.\\n \\nA1\\nsomething that is said at the beginning of a phone conversation:\\n\\\"Hello, I'd like some information about flights to the U.S., please.\\\"\\n \\nsomething that is said to attract someone's attention:\\nThe front door was open so she walked inside and called out, \\\"Hello! Is there anybody in?\\\"\\n \\ninformal\\nsaid to someone who has just said or done something stupid, especially something that shows they are not noticing what is happening:\\nShe asked me if I'd just arrived and I was like \\\"Hello, I've been here for an hour.\\\"\\n \\nold-fashioned\\nan expression of surprise:\\nHello, this is very strange - I know that man.\\n Fewer examples\\nCathy poked her head round the door to say hello.\\nWhen he said hello, I felt my face turn bright red.\\nHello - could I speak to Ann, please?\\nAfter we'd said our hellos, it all went quiet and nobody knew what to do.\\nOh, hello - what are you doing in here?\\n SMART Vocabulary: related words and phrases\\nGrammar\\nGreetings and farewells: hello, goodbye, Happy New Year\\nWhen we see someone we know, we usually exchange greetings: …\\nSaying hello\\nWhen we see someone we know, we usually exchange greetings: …\\nSaying goodbye\\nWhen we leave people, we usually say something as we leave: …\\n(Definition of hello from the Cambridge Advanced Learner's Dictionary & Thesaurus © Cambridge University Press)".to_string()));

        // intermediate one
        let mut expl = DefaultExpl::default();
        expl.is_interme = true;
        expl.is_busi = false;
        expl.pronun = "US  /heˈloʊ, hə-/".to_string();
        expl.expls.push(Expl {
            meaning: "used when meeting or greeting someone:".to_string(),
            usages: vec![
                "\\\"Hello, Paul,\\\" she said, \\\"I haven’t seen you for months.\\\"".to_string(),
                "I know her vaguely – we’ve exchanged hellos a few times.".to_string(),
                "Come and say hello to my friends (= meet them).".to_string(),
            ],
            nv_cate: Some("plural hellos".to_string()),
        });
        // parsing meaning-only is not supported currently
        // expl.expls.push(Expl {
        //     meaning: "Hello is also said at the beginning of a telephone conversation.".to_string(),
        //     usages: vec![],
        //     nv_cate: None,
        // });
        expl.expls.push(Expl {
            meaning: "Hello is also used to attract someone’s attention:".to_string(),
            usages: vec![
                "She walked into the shop and called out, \\\"Hello! Is anybody here?\\\"".to_string(),
            ],
            nv_cate: None,
        });

        expected_camd_res
            .1
            .push(LevelExpained::DefaultKind(expl, "hello | INTERMEDIATE ENGLISH\\nhello\\nexclamation, noun [ C ]\\nUS  /heˈloʊ, hə-/\\nplural hellos\\nAdd to word list \\nused when meeting or greeting someone:\\n\\\"Hello, Paul,\\\" she said, \\\"I haven’t seen you for months.\\\"\\nI know her vaguely – we’ve exchanged hellos a few times.\\nCome and say hello to my friends (= meet them).\\n \\nHello is also said at the beginning of a telephone conversation.\\n \\nHello is also used to attract someone’s attention:\\nShe walked into the shop and called out, \\\"Hello! Is anybody here?\\\"\\n(Definition of hello from the Cambridge Academic Content Dictionary © Cambridge University Press)".to_string()));

        // examples
        let mut expl = RealExamp::default();
        expl.0.push(Examp {
            usage: "She said that the highlight of her day was when she went up to say hello to one of the families.".to_string(),
            from: "From Huffington Post".to_string(),
        });
        expl.0.push(Examp {
            usage: "We learned to hear sorrow in one \\\"hello,\\\" and how to sit with each other without words.".to_string(),
            from: "From Huffington Post".to_string(),
        });
        expl.0.push(Examp {
            usage: "They say they hear him saying words like \\\"hello,\\\" even if others are skeptical, and say he responds to their attention.".to_string(),
            from: "From ABC News".to_string(),
        });
        expl.0.push(Examp {
            usage: "Usually, they get a response, and the second baseman will find his friends and say hello.".to_string(),
            from: "From ESPN".to_string(),
        });
        expl.0.push(Examp {
            usage: "Though he played a criminal on television, they say he was one of the nicest men and always waved hello.".to_string(),
            from: "From CNN".to_string(),
        });
        expl.0.push(Examp {
            usage: "Almost everybody stops by to say hello and chat.".to_string(),
            from: "From Chicago Tribune".to_string(),
        });
        expl.0.push(Examp {
            usage: "Hello, this is your friendly government authority here.".to_string(),
            from: "From Gizmodo".to_string(),
        });
        expl.0.push(Examp {
            usage: "Hello, please allow me to introduce myself, sir.".to_string(),
            from: "From CNN".to_string(),
        });
        expl.0.push(Examp {
            usage: "Walk up to him or her and do three things: smile, say hello, and listen.".to_string(),
            from: "From Huffington Post".to_string(),
        });
        expl.0.push(Examp {
            usage: "What are the characteristics of the way you say, \\\"hello,\\\" (or anything else for that matter) that makes you recognizable over the phone?".to_string(),
            from: "From Phys.Org".to_string(),
        });
        expl.0.push(Examp {
            usage: "Hello didn't become \\\"hi\\\" until the telephone arrived.".to_string(),
            from: "From NPR".to_string(),
        });

        expected_camd_res.0 = "hello".to_string();
        expected_camd_res.1.push(LevelExpained::RealExampKind(expl));

        assert_eq!(camd_res, expected_camd_res);

    }

#[test]
fn camd_res__2() {
        let explained = "\"______ \\nworld\\nnoun\\nUS  /wɝːld/ UK  /wɜːld/\\nworld noun (THE EARTH)\\nAdd to word list \\nA1 [ S ]\\nthe earth and all the people, places, and things on it:\\nDifferent parts of the world have very different climatic conditions.\\nWhich bridge has the longest span in the world?\\nNews of the disaster shocked the (whole/entire) world.\\nWe live in a changing world and people must learn to adapt.\\nShe's a world authority on fetal development.\\na world record/championship\\n Fewer examples\\nPeople from different cultures have different conceptions of the world.\\nThe richer countries of the world should take concerted action to help the poorer countries.\\nI'm flirting with the idea of taking a year off and traveling round the world.\\nHe's one of the highest-earning professional golfers in the world.\\nThe museum's collection includes works of art from all around the world.\\n SMART Vocabulary: related words and phrases\\nworld noun (GROUP/AREA)\\n \\nB1 [ C usually singular ]\\na group of things such as countries or animals, or an area of human activity or understanding:\\nthe Muslim world\\nthe modern/industrialized world\\nthe animal world\\nstars from the rock music world\\nUnexpected things can happen in the world of subatomic particles.\\n More examples\\n SMART Vocabulary: related words and phrases\\nworld noun (PLANET)\\n \\n[ C ]\\na planet or other part of the universe, especially one where life might or does exist:\\nThere was a man on the news last night who believes we've been visited by beings from other worlds.\\n SMART Vocabulary: related words and phrases\\nIdioms\\nat one with the world\\nbe worlds apart\\ndo someone a world of good\\nfor all the world\\ngo/come down in the world\\ngo/come up in the world\\nhave the world at your feet\\nin a world of your own\\nmake a world of difference\\nmake the world go around/round\\n More idioms\\n(Definition of world from the Cambridge Advanced Learner's Dictionary & Thesaurus © Cambridge University Press)______world | INTERMEDIATE ENGLISH\\nworld\\nnoun\\nUS  /wɜrld/\\nworld noun (THE EARTH)\\nAdd to word list \\n[ U ]\\nthe planet on which human life has developed, esp. including all people and their ways of life:\\nPeople from all over the world will be attending the conference.\\nThe rapid growth of computers has changed the world.\\n \\n[ U ]\\nThe world can also mean the whole physical universe:\\nThe world contains many solar systems, not just ours.\\nworld noun (WHOLE AREA)\\n \\n[ C ]\\nall of a particular group or type of thing, such as countries or animals, or a whole area of human activity or understanding:\\nthe animal/plant world\\nthe business world\\nthe world of entertainment\\nIn the world of politics, the president’s voice is still the most powerful in the nation.\\nworld noun (LARGE DEGREE)\\n \\n[ U ]\\na large degree; a lot:\\nThere’s a world of difference between the two hotels.\\nIdioms\\nin a world of your own\\nin the world\\nman of the world\\n(Definition of world from the Cambridge Academic Content Dictionary © Cambridge University Press)______world | BUSINESS ENGLISH\\nworld\\nnoun [ C, usually singular ]\\nUK  /wɜːld/ US \\nAdd to word list \\na particular area of activity:\\nOur world of work is changing rapidly.\\nthe world of advertising/the internet\\nthe business/corporate world\\n(Definition of world from the Cambridge Business English Dictionary © Cambridge University Press)______EXAMPLES of world\\nworld\\nWhat happens in my life, in my world, doesn't have anything to do with you.\\nFrom NPR\\nMore than 300,000 podcasts exist in the world as of the close of 2015.\\nFrom The Atlantic\\nThis is the world we are headed toward.\\nFrom TIME\\nThe book goes out into the world, and who knows?\\nFrom The Atlantic\\nThis will make the world a better place.\\nFrom CNN\\nWe're all coming together towards making the world a better place.\\nFrom Voice of America\\nIt's what people in 3rd and 4th world countries do.\\nFrom CNN\\nAnd as the world for birds goes, our world can't be far behind.\\nFrom National Geographic\\nBudgets fool us into believing that they will not only tame us, but the world around us as well.\\nFrom New York Daily News\\nBut what in the world was that album all about?\\nFrom TIME\\nIt's a fun world to be a part of.\\nFrom VentureBeat\\nIt's bringing those worlds together that most interests me.\\nFrom NJ.com\\nIs the world a better place for having you and your work a part of it?\\nFrom Fast Company\\nStart paying attention to the physical world around you.\\nFrom Huffington Post\\nIt housed one of the world's important collections of arms and armor.\\nFrom CNBC\\nThese examples are from corpora and from sources on the web. Any opinions in the examples do not represent the opinion of the Cambridge Dictionary editors or of Cambridge University Press or its licensors.______COLLOCATIONS with world\\nworld\\n\\nThese are words often used in combination with world.\\n\\nClick on a collocation to see more examples of it.\\n\\nalien world\\nFrom everyday objects they built an alien world.\\nFrom the Cambridge English Corpus\\n\u{a0}\\nancient world\\nThe ancient world made a welcome reappearance in three theses.\\nFrom the Cambridge English Corpus\\n\u{a0}\\ncapitalist world\\nAcross the capitalist world the problem of cost containment has dominated health care since the mid-1970s.\\nFrom the Cambridge English Corpus\\n\u{a0}\\nThese examples are from corpora and from sources on the web. Any opinions in the examples do not represent the opinion of the Cambridge Dictionary editors or of Cambridge University Press or its licensors.\\nSee all collocations with world______What is the pronunciation of world?______\u{a0}\"".to_string();

        let camd_res = CamdResult::from_str("world", &explained).expect("bug");

        let mut expected_camd_res = CamdResult("world".to_string(), vec![]);

        // primary one
        let mut expl = DefaultExpl::default();
        expl.is_interme = false;
        expl.is_busi = false;
        expl.pronun = "US  /wɝːld/ UK  /wɜːld/".to_string();
        expl.expls.push(Expl {
            meaning: "the earth and all the people, places, and things on it:".to_string(),
            usages: vec![
                "Different parts of the world have very different climatic conditions.".to_string(),
                "Which bridge has the longest span in the world?".to_string(),
                "News of the disaster shocked the (whole/entire) world.".to_string(),
                "We live in a changing world and people must learn to adapt.".to_string(),
                "She's a world authority on fetal development.".to_string(),
                "a world record/championship".to_string(),
                // " Fewer examples".to_string(),
                // "People from different cultures have different conceptions of the world.".to_string(),
                // "The richer countries of the world should take concerted action to help the poorer countries.".to_string(),
                // "I'm flirting with the idea of taking a year off and traveling round the world.".to_string(),
                // "He's one of the highest-earning professional golfers in the world.".to_string(),
                // "The museum's collection includes works of art from all around the world.".to_string(),
            ],
            nv_cate: Some("world noun (THE EARTH)".to_string()),
        });
        expl.expls.push(Expl {
            meaning: "a group of things such as countries or animals, or an area of human activity or understanding:".to_string(),
            usages: vec![
                "the Muslim world".to_string(),
                "the modern/industrialized world".to_string(),
                "the animal world".to_string(),
                "stars from the rock music world".to_string(),
                "Unexpected things can happen in the world of subatomic particles.".to_string(),
            ],
            nv_cate: Some("world noun (GROUP/AREA)".to_string()),
        });
        expl.expls.push(Expl {
            meaning: "a planet or other part of the universe, especially one where life might or does exist:".to_string(),
            usages: vec![
                "There was a man on the news last night who believes we've been visited by beings from other worlds.".to_string(),
            ],
            nv_cate: Some("world noun (PLANET)".to_string()),
        });

        expected_camd_res
            .1
            .push(LevelExpained::DefaultKind(expl, " \\nworld\\nnoun\\nUS  /wɝːld/ UK  /wɜːld/\\nworld noun (THE EARTH)\\nAdd to word list \\nA1 [ S ]\\nthe earth and all the people, places, and things on it:\\nDifferent parts of the world have very different climatic conditions.\\nWhich bridge has the longest span in the world?\\nNews of the disaster shocked the (whole/entire) world.\\nWe live in a changing world and people must learn to adapt.\\nShe's a world authority on fetal development.\\na world record/championship\\n Fewer examples\\nPeople from different cultures have different conceptions of the world.\\nThe richer countries of the world should take concerted action to help the poorer countries.\\nI'm flirting with the idea of taking a year off and traveling round the world.\\nHe's one of the highest-earning professional golfers in the world.\\nThe museum's collection includes works of art from all around the world.\\n SMART Vocabulary: related words and phrases\\nworld noun (GROUP/AREA)\\n \\nB1 [ C usually singular ]\\na group of things such as countries or animals, or an area of human activity or understanding:\\nthe Muslim world\\nthe modern/industrialized world\\nthe animal world\\nstars from the rock music world\\nUnexpected things can happen in the world of subatomic particles.\\n More examples\\n SMART Vocabulary: related words and phrases\\nworld noun (PLANET)\\n \\n[ C ]\\na planet or other part of the universe, especially one where life might or does exist:\\nThere was a man on the news last night who believes we've been visited by beings from other worlds.\\n SMART Vocabulary: related words and phrases\\nIdioms\\nat one with the world\\nbe worlds apart\\ndo someone a world of good\\nfor all the world\\ngo/come down in the world\\ngo/come up in the world\\nhave the world at your feet\\nin a world of your own\\nmake a world of difference\\nmake the world go around/round\\n More idioms\\n(Definition of world from the Cambridge Advanced Learner's Dictionary & Thesaurus © Cambridge University Press)".to_string()));

        // intermediate one
        let mut expl = DefaultExpl::default();
        expl.is_interme = true;
        expl.is_busi = false;
        expl.pronun = "US  /wɜrld/".to_string();
        expl.expls.push(Expl {
            meaning: "the planet on which human life has developed, esp. including all people and their ways of life:".to_string(),
            usages: vec![
                "People from all over the world will be attending the conference.".to_string(),
                "The rapid growth of computers has changed the world.".to_string(),
            ],
            nv_cate: Some("world noun (THE EARTH)".to_string()),
        });
        expl.expls.push(Expl {
            meaning: "The world can also mean the whole physical universe:".to_string(),
            usages: vec!["The world contains many solar systems, not just ours.".to_string()],
            nv_cate: None,
        });
        expl.expls.push(Expl {
            meaning: "all of a particular group or type of thing, such as countries or animals, or a whole area of human activity or understanding:".to_string(),
            usages: vec![
                "the animal/plant world".to_string(),
                "the business world".to_string(),
                "the world of entertainment".to_string(),
                "In the world of politics, the president’s voice is still the most powerful in the nation.".to_string(),
            ],
            nv_cate: Some("world noun (WHOLE AREA)".to_string()),
        });
        expl.expls.push(Expl {
            meaning: "a large degree; a lot:".to_string(),
            usages: vec!["There’s a world of difference between the two hotels.".to_string()],
            nv_cate: Some("world noun (LARGE DEGREE)".to_string()),
        });

        expected_camd_res
            .1
            .push(LevelExpained::DefaultKind(expl, "world | INTERMEDIATE ENGLISH\\nworld\\nnoun\\nUS  /wɜrld/\\nworld noun (THE EARTH)\\nAdd to word list \\n[ U ]\\nthe planet on which human life has developed, esp. including all people and their ways of life:\\nPeople from all over the world will be attending the conference.\\nThe rapid growth of computers has changed the world.\\n \\n[ U ]\\nThe world can also mean the whole physical universe:\\nThe world contains many solar systems, not just ours.\\nworld noun (WHOLE AREA)\\n \\n[ C ]\\nall of a particular group or type of thing, such as countries or animals, or a whole area of human activity or understanding:\\nthe animal/plant world\\nthe business world\\nthe world of entertainment\\nIn the world of politics, the president’s voice is still the most powerful in the nation.\\nworld noun (LARGE DEGREE)\\n \\n[ U ]\\na large degree; a lot:\\nThere’s a world of difference between the two hotels.\\nIdioms\\nin a world of your own\\nin the world\\nman of the world\\n(Definition of world from the Cambridge Academic Content Dictionary © Cambridge University Press)".to_string()));

        // business one
        let mut expl = DefaultExpl::default();
        expl.is_interme = false;
        expl.is_busi = true;
        expl.pronun = "UK  /wɜːld/ US".to_string();
        expl.expls.push(Expl {
            meaning: "a particular area of activity:".to_string(),
            usages: vec![
                "Our world of work is changing rapidly.".to_string(),
                "the world of advertising/the internet".to_string(),
                "the business/corporate world".to_string(),
            ],
            nv_cate: None,
        });

        expected_camd_res
            .1
            .push(LevelExpained::DefaultKind(expl, "world | BUSINESS ENGLISH\\nworld\\nnoun [ C, usually singular ]\\nUK  /wɜːld/ US \\nAdd to word list \\na particular area of activity:\\nOur world of work is changing rapidly.\\nthe world of advertising/the internet\\nthe business/corporate world\\n(Definition of world from the Cambridge Business English Dictionary © Cambridge University Press)".to_string()));

        // examples
        let mut expl = RealExamp::default();
        expl.0.push(Examp {
            usage: "What happens in my life, in my world, doesn't have anything to do with you.".to_string(),
            from: "From NPR".to_string(),
        });
        expl.0.push(Examp {
            usage: "More than 300,000 podcasts exist in the world as of the close of 2015.".to_string(),
            from: "From The Atlantic".to_string(),
        });
        expl.0.push(Examp {
            usage: "This is the world we are headed toward.".to_string(),
            from: "From TIME".to_string(),
        });
        expl.0.push(Examp {
            usage: "The book goes out into the world, and who knows?".to_string(),
            from: "From The Atlantic".to_string(),
        });
        expl.0.push(Examp {
            usage: "This will make the world a better place.".to_string(),
            from: "From CNN".to_string(),
        });
        expl.0.push(Examp {
            usage: "We're all coming together towards making the world a better place.".to_string(),
            from: "From Voice of America".to_string(),
        });
        expl.0.push(Examp {
            usage: "It's what people in 3rd and 4th world countries do.".to_string(),
            from: "From CNN".to_string(),
        });
        expl.0.push(Examp {
            usage: "And as the world for birds goes, our world can't be far behind.".to_string(),
            from: "From National Geographic".to_string(),
        });
        expl.0.push(Examp {
            usage: "Budgets fool us into believing that they will not only tame us, but the world around us as well.".to_string(),
            from: "From New York Daily News".to_string(),
        });
        expl.0.push(Examp {
            usage: "But what in the world was that album all about?".to_string(),
            from: "From TIME".to_string(),
        });
        expl.0.push(Examp {
            usage: "It's a fun world to be a part of.".to_string(),
            from: "From VentureBeat".to_string(),
        });
        expl.0.push(Examp {
            usage: "It's bringing those worlds together that most interests me.".to_string(),
            from: "From NJ.com".to_string(),
        });
        expl.0.push(Examp {
            usage: "Is the world a better place for having you and your work a part of it?".to_string(),
            from: "From Fast Company".to_string(),
        });
        expl.0.push(Examp {
            usage: "Start paying attention to the physical world around you.".to_string(),
            from: "From Huffington Post".to_string(),
        });
        expl.0.push(Examp {
            usage: "It housed one of the world's important collections of arms and armor.".to_string(),
            from: "From CNBC".to_string(),
        });

        expected_camd_res.0 = "world".to_string();
        expected_camd_res.1.push(LevelExpained::RealExampKind(expl));

        assert_eq!(camd_res, expected_camd_res);

    }

#[test]
fn _3() {
        let explained = "\"______ \\ndetail\\nnoun\\nUS  /dɪˈteɪl/ US  /ˈdiː.teɪl/ UK  /ˈdiː.teɪl/\\ndetail noun (INFORMATION)\\nAdd to word list \\nB1 [ C ]\\na single piece of information or fact about something:\\nShe insisted on telling me every single detail of what they did to her in the hospital.\\nWe don't know the full/precise details of the story yet.\\nShe refused to disclose/divulge any details about/of the plan.\\n\u{a0}details [ plural ]\\n \\nA2\\ninformation about someone or something:\\nA police officer took down the details of what happened.\\nSee more\\n \\n[ U ]\\nthe small features of something that you only notice when you look carefully:\\nI was just admiring the detail in the dollhouse - even the cans of food have labels on them.\\nIt's his eye for (= ability to notice) detail that distinguishes him as a painter.\\n\u{a0}in detail\\n \\nB1\\nincluding or considering all the information about something or every part of something:\\nWe haven't discussed the matter in detail yet.\\nSee more\\n\u{a0}go into detail\\n \\nB2\\nto tell or include all the facts about something:\\nI won't go into detail over the phone, but I've been having a few health problems recently.\\nSee more\\n \\n[ C ]\\na part of something that does not seem important:\\nTony says, he's going to get the car, and finding the money to pay for it is just a minor detail.\\n Fewer examples\\nThe model of the village is accurate down to the last detail.\\nHe forgot to tell you one important detail - he's married.\\nIt's only a detail, but could you just add the office phone number at the top of the page?\\nHer paintings are almost photographic in their detail and accuracy.\\nThere is one small detail you've gotten wrong in your report.\\n SMART Vocabulary: related words and phrases\\ndetail noun (GROUP)\\n \\n[ C, + sing/pl verb ]\\na group of people who have been given a particular task\\n SMART Vocabulary: related words and phrases\\n \\ndetail\\nverb\\nUS  /dɪˈteɪl/ US  /ˈdiː.teɪl/ UK  /ˈdiː.teɪl/\\ndetail verb (GIVE INFORMATION)\\n \\n[ T ] US  /dɪˈteɪl/ US  /ˈdiː.teɪl/ UK  /ˈdiː.teɪl/\\nto describe something completely, giving all the facts:\\n[ + question word ] Can you produce a report detailing what we've spent on the project so far?\\n SMART Vocabulary: related words and phrases\\ndetail verb (ORDER)\\n \\n[ T + to infinitive, often passive ] US  /dɪˈteɪl/ US  /ˈdiː.teɪl/ UK  /ˈdiː.teɪl/\\nto order someone, often a small group of soldiers or workers, to perform a particular task:\\nFour soldiers were detailed to check the road for troops.\\n SMART Vocabulary: related words and phrases\\ndetail verb (CLEAN CAR)\\n \\n[ T ] US US/ˈdiː.teɪl/ UK  /ˈdiː.teɪl/\\nto clean the inside and outside of a vehicle very carefully:\\nYou can skip the car wash; Rogers has all the equipment to wash and detail your car in your own driveway.\\na car detailing company\\n SMART Vocabulary: related words and phrases\\n(Definition of detail from the Cambridge Advanced Learner's Dictionary & Thesaurus © Cambridge University Press)______detail | INTERMEDIATE ENGLISH\\ndetail\\nnoun\\nUS  /dɪˈteɪl, ˈdi·teɪl/\\ndetail noun (INFORMATION)\\nAdd to word list \\n[ C/U ]\\na particular fact or item of information, often noticed only after giving something your close attention, or such facts or items considered as a group:\\n[ C ] We have a report of a serious accident on Route 23, but so far no details.\\n[ U ] She showed a businesslike attention to detail.\\n[ U ] I can’t go into much detail, but I’ve been having some health problems recently.\\nWe know roughly what he wants to do, but we haven’t discussed his plans in detail (= considering all the particular facts).\\ndetail noun (GROUP)\\n \\n[ C ]\\na small group, esp. of soldiers or police, ordered to perform a particular duty:\\nA detail of five police officers accompanied the diplomat to his hotel.\\ndetailed\\nadjective US  /dɪˈteɪld, ˈdi·teɪld/\\na detailed account/description\\n \\ndetail\\nverb [ T ]\\nUS  /dɪˈteɪl, ˈdi·teɪl/\\ndetail verb [T] (GIVE INFORMATION)\\n \\nto give exact and complete information about something:\\nThe committee members issued a brief statement detailing their plans.\\n(Definition of detail from the Cambridge Academic Content Dictionary © Cambridge University Press)______EXAMPLES of detail\\ndetail\\nHe sent a letter detailing the problems to the manufacturer.\\nFrom Voice of America\\nThey have not released any details about a motive.\\nFrom ABC News\\nThis will detail how to take actions like blocking users, for example.\\nFrom TechCrunch\\nShe had signs of trauma on her body; but, police are not releasing details.\\nFrom CBS Local\\nOne reason may be the terribly unsexy details of the employee-ownership structure.\\nFrom The Atlantic\\nWe are seeking more details from the district and will post them here when available.\\nFrom cleveland.com\\nSome details of the episode, though, remain murky.\\nFrom Washington Post\\nWe'll note where the two disagree on the details.\\nFrom VentureBeat\\nTimes staffers will be there to bring you the details.\\nFrom Los Angeles Times\\nI was very impressed with the level of detail he had maintained during the restoration.\\nFrom USA TODAY\\nA spokesman said there were \\\"no immediate details\\\" on the nature of the threat, saying the call came in around 12:15 p.m.\\nFrom Washington Post\\nHow do other people and entire communities come to care about species about whose biological details they might not know?\\nFrom Phys.Org\\nShe is gifted with language and is able to layer difficult details in such a way that the result is smooth as water.\\nFrom NPR\\nTheir older parents want to speak about the logistics of death in detail.\\nFrom Huffington Post\\nThese examples are from corpora and from sources on the web. Any opinions in the examples do not represent the opinion of the Cambridge Dictionary editors or of Cambridge University Press or its licensors.______COLLOCATIONS with detail\\ndetail\\n\\nThese are words often used in combination with detail.\\n\\nClick on a collocation to see more examples of it.\\n\\naccurate detail\\nThough the story is fictional, recent scholarship has uncovered a greater measure of historically accurate detail in its setting than had previously been realized.\\nFrom the Cambridge English Corpus\\n\u{a0}\\nadditional detail\\nExtended response that contains additional detail that is irrelevant, repetitive or bizarre.\\nFrom the Cambridge English Corpus\\n\u{a0}\\nadministrative detail\\nSuch policies cannot just be legislated; they must be worked out in administrative detail.\\nFrom the Cambridge English Corpus\\n\u{a0}\\nThese examples are from corpora and from sources on the web. Any opinions in the examples do not represent the opinion of the Cambridge Dictionary editors or of Cambridge University Press or its licensors.\\nSee all collocations with detail______What is the pronunciation of detail?______\u{a0}\"".to_string();

        let camd_res = CamdResult::from_str("detail", &explained).expect("bug");

        let mut expected_camd_res = CamdResult("detail".to_string(), vec![]);

        // primary one
        let mut expl = DefaultExpl::default();
        expl.is_interme = false;
        expl.is_busi = false;
        expl.pronun = "US  /dɪˈteɪl/ US  /ˈdiː.teɪl/ UK  /ˈdiː.teɪl/".to_string();
        expl.expls.push(Expl {
            meaning: "a single piece of information or fact about something:".to_string(),
            usages: vec![
                "She insisted on telling me every single detail of what they did to her in the hospital.".to_string(),
                "We don't know the full/precise details of the story yet.".to_string(),
                "She refused to disclose/divulge any details about/of the plan.".to_string(),
            ],
            nv_cate: Some("detail noun (INFORMATION)".to_string()),
        });
        expl.expls.push(Expl {
            meaning: "information about someone or something:".to_string(),
            usages: vec!["A police officer took down the details of what happened.".to_string()],
            nv_cate: Some("\u{a0}details [ plural ]".to_string()),
        });
        expl.expls.push(Expl {
            meaning: "the small features of something that you only notice when you look carefully:".to_string(),
            usages: vec![
                "I was just admiring the detail in the dollhouse - even the cans of food have labels on them.".to_string(),
		"It's his eye for (= ability to notice) detail that distinguishes him as a painter.".to_string(),
		// "\u{a0}in detail".to_string()
            ],
            nv_cate: None
        });
        expl.expls.push(Expl {
            meaning: "including or considering all the information about something or every part of something:".to_string(),
            usages: vec![
                "We haven't discussed the matter in detail yet.".to_string(),
            ],
            nv_cate: None
        });
        expl.expls.push(Expl {
            meaning: "to tell or include all the facts about something:".to_string(),
            usages: vec!["I won't go into detail over the phone, but I've been having a few health problems recently.".to_string()],
            nv_cate: None
        });
        expl.expls.push(Expl {
            meaning: "a part of something that does not seem important:".to_string(),
            usages: vec![
		"Tony says, he's going to get the car, and finding the money to pay for it is just a minor detail.".to_string(),
		// " Fewer examples".to_string(),
		// "The model of the village is accurate down to the last detail.".to_string(),
		// "He forgot to tell you one important detail - he's married.".to_string(),
		// "It's only a detail, but could you just add the office phone number at the top of the page?".to_string(),
		// "Her paintings are almost photographic in their detail and accuracy.".to_string(),
		// "There is one small detail you've gotten wrong in your report.".to_string()
	    ],
            nv_cate: None,
        });
        // no trailing punctuation
        // expl.expls.push(Expl {
        //     meaning: "a group of people who have been given a particular task".to_string(),
        //     usages: vec![],
        //     nv_cate: Some("detail noun (GROUP)".to_string()),
        // });
        expl.expls.push(Expl {
            meaning: "to describe something completely, giving all the facts:".to_string(),
            usages: vec!["[ + question word ] Can you produce a report detailing what we've spent on the project so far?".to_string()],
            nv_cate: Some("detail verb (GIVE INFORMATION)".to_string()),
        });
        expl.expls.push(Expl {
            meaning: "to order someone, often a small group of soldiers or workers, to perform a particular task:".to_string(),
            usages: vec!["Four soldiers were detailed to check the road for troops.".to_string()],
            nv_cate: Some("detail verb (ORDER)".to_string()),
        });
        expl.expls.push(Expl {
            meaning: "to clean the inside and outside of a vehicle very carefully:".to_string(),
            usages: vec!["You can skip the car wash; Rogers has all the equipment to wash and detail your car in your own driveway.".to_string(),"a car detailing company".to_string()],
            nv_cate: Some("detail verb (CLEAN CAR)".to_string()),
        });

        expected_camd_res
            .1
            .push(LevelExpained::DefaultKind(expl, " \\ndetail\\nnoun\\nUS  /dɪˈteɪl/ US  /ˈdiː.teɪl/ UK  /ˈdiː.teɪl/\\ndetail noun (INFORMATION)\\nAdd to word list \\nB1 [ C ]\\na single piece of information or fact about something:\\nShe insisted on telling me every single detail of what they did to her in the hospital.\\nWe don't know the full/precise details of the story yet.\\nShe refused to disclose/divulge any details about/of the plan.\\n\u{a0}details [ plural ]\\n \\nA2\\ninformation about someone or something:\\nA police officer took down the details of what happened.\\nSee more\\n \\n[ U ]\\nthe small features of something that you only notice when you look carefully:\\nI was just admiring the detail in the dollhouse - even the cans of food have labels on them.\\nIt's his eye for (= ability to notice) detail that distinguishes him as a painter.\\n\u{a0}in detail\\n \\nB1\\nincluding or considering all the information about something or every part of something:\\nWe haven't discussed the matter in detail yet.\\nSee more\\n\u{a0}go into detail\\n \\nB2\\nto tell or include all the facts about something:\\nI won't go into detail over the phone, but I've been having a few health problems recently.\\nSee more\\n \\n[ C ]\\na part of something that does not seem important:\\nTony says, he's going to get the car, and finding the money to pay for it is just a minor detail.\\n Fewer examples\\nThe model of the village is accurate down to the last detail.\\nHe forgot to tell you one important detail - he's married.\\nIt's only a detail, but could you just add the office phone number at the top of the page?\\nHer paintings are almost photographic in their detail and accuracy.\\nThere is one small detail you've gotten wrong in your report.\\n SMART Vocabulary: related words and phrases\\ndetail noun (GROUP)\\n \\n[ C, + sing/pl verb ]\\na group of people who have been given a particular task\\n SMART Vocabulary: related words and phrases\\n \\ndetail\\nverb\\nUS  /dɪˈteɪl/ US  /ˈdiː.teɪl/ UK  /ˈdiː.teɪl/\\ndetail verb (GIVE INFORMATION)\\n \\n[ T ] US  /dɪˈteɪl/ US  /ˈdiː.teɪl/ UK  /ˈdiː.teɪl/\\nto describe something completely, giving all the facts:\\n[ + question word ] Can you produce a report detailing what we've spent on the project so far?\\n SMART Vocabulary: related words and phrases\\ndetail verb (ORDER)\\n \\n[ T + to infinitive, often passive ] US  /dɪˈteɪl/ US  /ˈdiː.teɪl/ UK  /ˈdiː.teɪl/\\nto order someone, often a small group of soldiers or workers, to perform a particular task:\\nFour soldiers were detailed to check the road for troops.\\n SMART Vocabulary: related words and phrases\\ndetail verb (CLEAN CAR)\\n \\n[ T ] US US/ˈdiː.teɪl/ UK  /ˈdiː.teɪl/\\nto clean the inside and outside of a vehicle very carefully:\\nYou can skip the car wash; Rogers has all the equipment to wash and detail your car in your own driveway.\\na car detailing company\\n SMART Vocabulary: related words and phrases\\n(Definition of detail from the Cambridge Advanced Learner's Dictionary & Thesaurus © Cambridge University Press)".to_string()));

        // intermediate one
        let mut expl = DefaultExpl::default();
        expl.is_interme = true;
        expl.is_busi = false;
        expl.pronun = "US  /dɪˈteɪl, ˈdi·teɪl/".to_string();
        expl.expls.push(Expl {
            meaning: "a particular fact or item of information, often noticed only after giving something your close attention, or such facts or items considered as a group:".to_string(),
            usages: vec![
                "[ C ] We have a report of a serious accident on Route 23, but so far no details.".to_string(),
                "[ U ] She showed a businesslike attention to detail.".to_string(),"[ U ] I can’t go into much detail, but I’ve been having some health problems recently.".to_string(),
		"We know roughly what he wants to do, but we haven’t discussed his plans in detail (= considering all the particular facts).".to_string()
            ],
            nv_cate: Some("detail noun (INFORMATION)".to_string()),
        });
        expl.expls.push(Expl {
            meaning:
                "a small group, esp. of soldiers or police, ordered to perform a particular duty:".to_string(),
            usages: vec![
                "A detail of five police officers accompanied the diplomat to his hotel.".to_string(),
                "detailed".to_string(),
            ],
            nv_cate: Some("detail noun (GROUP)".to_string()),
        });
        expl.expls.push(Expl {
            meaning: "to give exact and complete information about something:".to_string(),
            usages: vec!["The committee members issued a brief statement detailing their plans.".to_string()],
            nv_cate: Some("detail verb [T] (GIVE INFORMATION)".to_string()),
        });

        expected_camd_res
            .1
            .push(LevelExpained::DefaultKind(expl, "detail | INTERMEDIATE ENGLISH\\ndetail\\nnoun\\nUS  /dɪˈteɪl, ˈdi·teɪl/\\ndetail noun (INFORMATION)\\nAdd to word list \\n[ C/U ]\\na particular fact or item of information, often noticed only after giving something your close attention, or such facts or items considered as a group:\\n[ C ] We have a report of a serious accident on Route 23, but so far no details.\\n[ U ] She showed a businesslike attention to detail.\\n[ U ] I can’t go into much detail, but I’ve been having some health problems recently.\\nWe know roughly what he wants to do, but we haven’t discussed his plans in detail (= considering all the particular facts).\\ndetail noun (GROUP)\\n \\n[ C ]\\na small group, esp. of soldiers or police, ordered to perform a particular duty:\\nA detail of five police officers accompanied the diplomat to his hotel.\\ndetailed\\nadjective US  /dɪˈteɪld, ˈdi·teɪld/\\na detailed account/description\\n \\ndetail\\nverb [ T ]\\nUS  /dɪˈteɪl, ˈdi·teɪl/\\ndetail verb [T] (GIVE INFORMATION)\\n \\nto give exact and complete information about something:\\nThe committee members issued a brief statement detailing their plans.\\n(Definition of detail from the Cambridge Academic Content Dictionary © Cambridge University Press)".to_string()));

        // examples
        let mut expl = RealExamp::default();
        expl.0.push(Examp {
            usage: "He sent a letter detailing the problems to the manufacturer.".to_string(),
            from: "From Voice of America".to_string(),
        });
        expl.0.push(Examp {
            usage: "They have not released any details about a motive.".to_string(),
            from: "From ABC News".to_string(),
        });
        expl.0.push(Examp {
            usage: "This will detail how to take actions like blocking users, for example.".to_string(),
            from: "From TechCrunch".to_string(),
        });
        expl.0.push(Examp {
            usage: "She had signs of trauma on her body; but, police are not releasing details.".to_string(),
            from: "From CBS Local".to_string(),
        });
        expl.0.push(Examp {
            usage: "One reason may be the terribly unsexy details of the employee-ownership structure.".to_string(),
            from: "From The Atlantic".to_string(),
        });
        expl.0.push(Examp {
            usage: "We are seeking more details from the district and will post them here when available.".to_string(),
            from: "From cleveland.com".to_string(),
        });
        expl.0.push(Examp {
            usage: "Some details of the episode, though, remain murky.".to_string(),
            from: "From Washington Post".to_string(),
        });
        expl.0.push(Examp {
            usage: "We'll note where the two disagree on the details.".to_string(),
            from: "From VentureBeat".to_string(),
        });
        expl.0.push(Examp {
            usage: "Times staffers will be there to bring you the details.".to_string(),
            from: "From Los Angeles Times".to_string(),
        });
        expl.0.push(Examp {
            usage: "I was very impressed with the level of detail he had maintained during the restoration.".to_string(),
            from: "From USA TODAY".to_string(),
        });
        expl.0.push(Examp {
            usage: "A spokesman said there were \\\"no immediate details\\\" on the nature of the threat, saying the call came in around 12:15 p.m.".to_string(),
            from: "From Washington Post".to_string(),
        });
        expl.0.push(Examp {
            usage: "How do other people and entire communities come to care about species about whose biological details they might not know?".to_string(),
            from: "From Phys.Org".to_string(),
        });
        expl.0.push(Examp {
            usage: "She is gifted with language and is able to layer difficult details in such a way that the result is smooth as water.".to_string(),
            from: "From NPR".to_string(),
        });
        expl.0.push(Examp {
            usage: "Their older parents want to speak about the logistics of death in detail.".to_string(),
            from: "From Huffington Post".to_string(),
        });

        expected_camd_res.0 = "detail".to_string();
        expected_camd_res.1.push(LevelExpained::RealExampKind(expl));

        assert_eq!(camd_res, expected_camd_res);

    }

#[test]
fn pages_keep_only_accepted_blocks_in_order() {
    // one well-shaped explanation block, then a block with no line escapes
    let page = "______h\\nword\\nAdd to word list \\nx______junk______";
    let got = CamdResult::from_str("word", page).expect("bug");
    assert_eq!(got.0, "word");
    assert_eq!(got.1.len(), 1);
    match &got.1[0] {
        LevelExpained::DefaultKind(d, raw) => {
            assert_eq!(raw, "h\\nword\\nAdd to word list \\nx");
            assert!(!d.is_interme);
            assert!(!d.is_busi);
            assert_eq!(d.pronun, "");
            assert!(d.expls.is_empty());
        }
        other => panic!("unexpected block {:?}", other),
    }
}
